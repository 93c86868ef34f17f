//! What the playlist actions compute: names, dates and request bodies.

use vstd::prelude::*;

use chrono::Datelike;

use crate::json::{append_jstr, jstr};
use crate::models::track::Track;
use crate::numfmt::{dec_rep, push_dec, string_push};

verus! {

/// Which slice of listening history a top-tracks playlist covers.
#[derive(Debug, Clone, Copy, PartialEq, Eq, Structural)]
pub enum TimeRange {
    ShortTerm,
    MediumTerm,
    LongTerm,
}

/// The provider's name for a range.
pub open spec fn time_range_chars(tr: TimeRange) -> Seq<char> {
    match tr {
        TimeRange::ShortTerm => "short_term"@,
        TimeRange::MediumTerm => "medium_term"@,
        TimeRange::LongTerm => "long_term"@,
    }
}

impl TimeRange {
    pub fn as_str(&self) -> (r: &'static str)
        ensures
            r@ == time_range_chars(*self),
    {
        match self {
            TimeRange::ShortTerm => "short_term",
            TimeRange::MediumTerm => "medium_term",
            TimeRange::LongTerm => "long_term",
        }
    }
}

/// A day or month as two digits.
pub open spec fn two_digit(n: nat) -> Seq<char> {
    if n < 10 {
        seq!['0'] + dec_rep(n)
    } else {
        dec_rep(n)
    }
}

fn push_two_digit(s: &mut String, n: u64)
    ensures
        final(s)@ == old(s)@ + two_digit(n as nat),
{
    if n < 10 {
        string_push(s, '0');
    }
    push_dec(s, n);
    assert(s@ =~= old(s)@ + two_digit(n as nat));
}

/// A date as day-month-year, the day and month zero-padded.
pub open spec fn date_chars(y: nat, m: nat, d: nat) -> Seq<char> {
    two_digit(d) + seq!['-'] + two_digit(m) + seq!['-'] + dec_rep(y)
}

/// The name of the playlist created for a range on a date.
pub open spec fn playlist_name_chars(tr: TimeRange, y: nat, m: nat, d: nat) -> Seq<char> {
    "Spautofy "@ + time_range_chars(tr) + " Top Tracks "@ + date_chars(y, m, d)
}

pub fn playlist_name(time_range: TimeRange, y: u64, m: u8, d: u8) -> (r: String)
    ensures
        r@ == playlist_name_chars(time_range, y as nat, m as nat, d as nat),
{
    let mut s = String::new();
    s.append("Spautofy ");
    s.append(time_range.as_str());
    s.append(" Top Tracks ");
    push_two_digit(&mut s, d as u64);
    string_push(&mut s, '-');
    push_two_digit(&mut s, m as u64);
    string_push(&mut s, '-');
    push_dec(&mut s, y);
    assert(s@ =~= playlist_name_chars(time_range, y as nat, m as nat, d as nat));
    s
}

/// Relies on chrono's Local::now and the Datelike readers: the current
/// local calendar date, with the month in 1 to 12 and the day in 1 to 31.
#[verifier::external_body]
fn today_date() -> (r: (u64, u8, u8))
    ensures
        1 <= r.1 <= 12,
        1 <= r.2 <= 31,
{
    let today = chrono::Local::now().date_naive();
    (today.year() as u64, today.month() as u8, today.day() as u8)
}

/// The name of the playlist created today for a range.
pub fn todays_playlist_name(time_range: TimeRange) -> (r: String)
    ensures
        exists|y: nat, m: nat, d: nat|
            1 <= m <= 12 && 1 <= d <= 31 && r@ == playlist_name_chars(time_range, y, m, d),
{
    let (y, m, d) = today_date();
    let name = playlist_name(time_range, y, m, d);
    proof {
        assert(1 <= m as nat <= 12 && 1 <= d as nat <= 31 && name@ == playlist_name_chars(
            time_range,
            y as nat,
            m as nat,
            d as nat,
        ));
    }
    name
}

/// The URIs of a track listing, in the listing's order.
pub fn track_uris(tracks: &Vec<Track>) -> (r: Vec<String>)
    ensures
        r@.len() == tracks@.len(),
        forall|i: int| 0 <= i < r@.len() ==> (#[trigger] r@[i])@ == tracks@[i].uri@,
{
    let n = tracks.len();
    let mut uris: Vec<String> = Vec::new();
    let mut i: usize = 0;
    while i < n
        invariant
            n == tracks@.len(),
            i <= n,
            uris@.len() == i,
            forall|j: int| 0 <= j < i ==> (#[trigger] uris@[j])@ == tracks@[j].uri@,
        decreases n - i,
    {
        uris.push(tracks[i].uri.clone());
        i = i + 1;
    }
    uris
}

/// The rendering of a boolean in a request body.
pub open spec fn bool_chars(b: bool) -> Seq<char> {
    if b {
        "true"@
    } else {
        "false"@
    }
}

/// The body sent to create a playlist: an absent description is sent as
/// an empty one.
pub open spec fn playlist_create_body_chars(
    name: Seq<char>,
    public: bool,
    description: Seq<char>,
    collaborative: bool,
) -> Seq<char> {
    "{\"name\":"@ + jstr(name) + ",\"public\":"@ + bool_chars(public) + ",\"description\":"@
        + jstr(description) + ",\"collaborative\":"@ + bool_chars(collaborative) + "}"@
}

fn append_bool(out: &mut String, b: bool)
    ensures
        final(out)@ == old(out)@ + bool_chars(b),
{
    if b {
        out.append("true");
    } else {
        out.append("false");
    }
}

pub fn playlist_create_body(
    name: &str,
    public: bool,
    description: Option<&str>,
    collaborative: bool,
) -> (r: String)
    ensures
        r@ == playlist_create_body_chars(
            name@,
            public,
            (if description is Some {
                description->0@
            } else {
                Seq::<char>::empty()
            }),
            collaborative,
        ),
{
    let mut s = String::new();
    s.append("{\"name\":");
    append_jstr(&mut s, name);
    s.append(",\"public\":");
    append_bool(&mut s, public);
    s.append(",\"description\":");
    match description {
        Some(d) => append_jstr(&mut s, d),
        None => append_jstr(&mut s, ""),
    }
    s.append(",\"collaborative\":");
    append_bool(&mut s, collaborative);
    s.append("}");
    proof {
        if description is None {
            reveal_strlit("");
            assert(""@ =~= Seq::<char>::empty());
        }
        assert(s@ =~= playlist_create_body_chars(
            name@,
            public,
            (if description is Some {
                description->0@
            } else {
                Seq::<char>::empty()
            }),
            collaborative,
        ));
    }
    s
}

/// The comma-separated quoted URIs of a tracks body.
pub open spec fn uris_items_chars(us: Seq<Seq<char>>) -> Seq<char>
    decreases us.len(),
{
    if us.len() == 0 {
        Seq::empty()
    } else if us.len() == 1 {
        jstr(us[0])
    } else {
        jstr(us[0]) + seq![','] + uris_items_chars(us.drop_first())
    }
}

/// The body sent to fill or replace a playlist's tracks.
pub open spec fn tracks_body_chars(us: Seq<Seq<char>>) -> Seq<char> {
    "{\"uris\":["@ + uris_items_chars(us) + "]}"@
}

proof fn lemma_uris_snoc(us: Seq<Seq<char>>, u: Seq<char>)
    requires
        us.len() >= 1,
    ensures
        uris_items_chars(us.push(u)) == uris_items_chars(us) + seq![','] + jstr(u),
    decreases us.len(),
{
    if us.len() == 1 {
        assert(us.push(u)[0] == us[0]);
        assert(us.push(u).drop_first() =~= seq![u]);
        assert(uris_items_chars(seq![u]) == jstr(u));
        assert(uris_items_chars(us.push(u)) =~= uris_items_chars(us) + seq![','] + jstr(u));
    } else {
        assert(us.push(u)[0] == us[0]);
        assert(us.push(u).drop_first() =~= us.drop_first().push(u));
        lemma_uris_snoc(us.drop_first(), u);
        assert(uris_items_chars(us.push(u)) =~= uris_items_chars(us) + seq![','] + jstr(u));
    }
}

pub fn playlist_tracks_body(uris: &Vec<String>) -> (r: String)
    ensures
        r@ == tracks_body_chars(uris.deep_view()),
{
    let mut s = String::new();
    s.append("{\"uris\":[");
    let n = uris.len();
    let mut i: usize = 0;
    while i < n
        invariant
            n == uris@.len(),
            i <= n,
            s@ == "{\"uris\":["@ + uris_items_chars(uris.deep_view().take(i as int)),
        decreases n - i,
    {
        let ghost done = uris.deep_view().take(i as int);
        let ghost entry = uris@[i as int]@;
        proof {
            assert(uris.deep_view().take(i + 1) =~= done.push(entry));
            if i >= 1 {
                lemma_uris_snoc(done, entry);
            } else {
                assert(done.push(entry) =~= seq![entry]);
            }
        }
        if i > 0 {
            string_push(&mut s, ',');
        }
        append_jstr(&mut s, uris[i].as_str());
        proof {
            assert(s@ =~= "{\"uris\":["@ + uris_items_chars(uris.deep_view().take(i + 1)));
        }
        i = i + 1;
    }
    s.append("]}");
    proof {
        assert(uris.deep_view().take(n as int) =~= uris.deep_view());
        assert(s@ =~= tracks_body_chars(uris.deep_view()));
    }
    s
}

} // verus!
