//! The config store: how a configuration file is persisted as text and
//! read back, with the round trip proved.

use vstd::prelude::*;

use crate::config::{BindAddress, SpautofyConfig, SpautofyConfigFile};
use crate::json::{
    jobject, lemma_object_roundtrip, lemma_p_number_rt, p_number, pairs_model, parse_number, scalars_bounded,
    parse_object, parse_object_spec, render_object, JsonScalar, ScalarModel,
};
use crate::numfmt::{dec_rep, is_digit_char};

verus! {

/// The mathematical reading of a persisted configuration file.
pub struct FileModel {
    pub address: Option<BindAddress>,
    pub port: Option<u16>,
    pub client_id: Seq<char>,
    pub client_secret: Seq<char>,
}

impl View for SpautofyConfigFile {
    type V = FileModel;

    open spec fn view(&self) -> FileModel {
        FileModel {
            address: self.address,
            port: self.port,
            client_id: self.client_id@,
            client_secret: self.client_secret@,
        }
    }
}

/// The member list a configuration file is persisted as: optional fields
/// are simply left out.
pub open spec fn file_pairs(f: FileModel) -> Seq<(Seq<char>, ScalarModel)> {
    let cred = seq![
        ("client_id"@, ScalarModel::TextV(f.client_id)),
        ("client_secret"@, ScalarModel::TextV(f.client_secret)),
    ];
    let with_port = if f.port is Some {
        seq![("port"@, ScalarModel::NumberV(f.port->0 as nat))] + cred
    } else {
        cred
    };
    if f.address is Some {
        seq![("address"@, ScalarModel::TextV(f.address->0.chars()))] + with_port
    } else {
        with_port
    }
}

/// The snapshot a run configuration is persisted as.
pub open spec fn config_snapshot(c: SpautofyConfig) -> FileModel {
    FileModel {
        address: Some(c.address),
        port: Some(c.port),
        client_id: c.client_id@,
        client_secret: c.client_secret@,
    }
}

/// The exact text a configuration file is persisted as.
pub open spec fn file_json(f: FileModel) -> Seq<char> {
    jobject(file_pairs(f))
}

/// The value stored under a key, if any; of duplicate keys the last
/// occurrence wins, as it does when JSON text is read into a map.
pub open spec fn find_val(ms: Seq<(Seq<char>, ScalarModel)>, k: Seq<char>) -> Option<ScalarModel>
    decreases ms.len(),
{
    if ms.len() == 0 {
        None
    } else if ms.last().0 == k {
        Some(ms.last().1)
    } else {
        find_val(ms.drop_last(), k)
    }
}

/// Reads one decimal octet from the front of `s`.
pub open spec fn p_octet(s: Seq<char>) -> Option<(nat, Seq<char>)> {
    match p_number(s) {
        Some(vr) => {
            if vr.0 < 256 {
                Some(vr)
            } else {
                None
            }
        },
        None => None,
    }
}

/// Reads a whole dotted-quad address, rejecting anything else.
pub open spec fn p_ipv4(s: Seq<char>) -> Option<BindAddress> {
    match p_octet(s) {
        Some(o1r) => {
            if o1r.1.len() >= 1 && o1r.1[0] == '.' {
                match p_octet(o1r.1.drop_first()) {
                    Some(o2r) => {
                        if o2r.1.len() >= 1 && o2r.1[0] == '.' {
                            match p_octet(o2r.1.drop_first()) {
                                Some(o3r) => {
                                    if o3r.1.len() >= 1 && o3r.1[0] == '.' {
                                        match p_octet(o3r.1.drop_first()) {
                                            Some(o4r) => {
                                                if o4r.1.len() == 0 {
                                                    Some(
                                                        BindAddress {
                                                            o1: o1r.0 as u8,
                                                            o2: o2r.0 as u8,
                                                            o3: o3r.0 as u8,
                                                            o4: o4r.0 as u8,
                                                        },
                                                    )
                                                } else {
                                                    None
                                                }
                                            },
                                            None => None,
                                        }
                                    } else {
                                        None
                                    }
                                },
                                None => None,
                            }
                        } else {
                            None
                        }
                    },
                    None => None,
                }
            } else {
                None
            }
        },
        None => None,
    }
}

/// How the address member is read: absent is fine, anything but a
/// well-formed dotted quad is not.
pub open spec fn addr_of_pairs(ms: Seq<(Seq<char>, ScalarModel)>) -> Option<Option<BindAddress>> {
    match find_val(ms, "address"@) {
        None => Some(None),
        Some(v) => match v {
            ScalarModel::TextV(t) => match p_ipv4(t) {
                Some(a) => Some(Some(a)),
                None => None,
            },
            ScalarModel::NumberV(_) => None,
            ScalarModel::OtherV => None,
        },
    }
}

/// How the port member is read: absent is fine, anything but a number
/// that fits a port is not.
pub open spec fn port_of_pairs(ms: Seq<(Seq<char>, ScalarModel)>) -> Option<Option<u16>> {
    match find_val(ms, "port"@) {
        None => Some(None),
        Some(v) => match v {
            ScalarModel::NumberV(p) => {
                if p <= 65535 {
                    Some(Some(p as u16))
                } else {
                    None
                }
            },
            ScalarModel::TextV(_) => None,
            ScalarModel::OtherV => None,
        },
    }
}

/// How a whole member list is read back as a configuration file: both
/// credentials must be present as strings; unknown members are ignored.
pub open spec fn file_of_pairs(ms: Seq<(Seq<char>, ScalarModel)>) -> Option<FileModel> {
    match (find_val(ms, "client_id"@), find_val(ms, "client_secret"@)) {
        (Some(ScalarModel::TextV(id)), Some(ScalarModel::TextV(sec))) => {
            match (addr_of_pairs(ms), port_of_pairs(ms)) {
                (Some(a), Some(p)) => Some(
                    FileModel { address: a, port: p, client_id: id, client_secret: sec },
                ),
                _ => None,
            }
        },
        _ => None,
    }
}

/// What loading a persisted text means: one object, read as above.
pub open spec fn parse_file_spec(s: Seq<char>) -> Option<FileModel> {
    match parse_object_spec(s) {
        Some(ms) => file_of_pairs(ms),
        None => None,
    }
}

fn parse_octet(s: &str, start: usize, n: usize) -> (r: Option<(u8, usize)>)
    requires
        n == s@.len(),
        start <= n,
    ensures
        match r {
            Some(vj) => start < vj.1 <= n && p_octet(s@.skip(start as int)) == Some(
                (vj.0 as nat, s@.skip(vj.1 as int)),
            ),
            None => p_octet(s@.skip(start as int)) is None,
        },
{
    match parse_number(s, start, n) {
        Some((v, j)) => {
            if v < 256 {
                Some((v as u8, j))
            } else {
                None
            }
        },
        None => None,
    }
}

/// Reads a dotted-quad bind address, and nothing else, from `s`.
pub fn parse_ipv4(s: &str) -> (r: Option<BindAddress>)
    ensures
        r == p_ipv4(s@),
{
    let n = s.unicode_len();
    proof {
        assert(s@.skip(0) =~= s@);
    }
    let o1 = match parse_octet(s, 0, n) {
        Some(v) => v,
        None => {
            return None;
        },
    };
    if !(o1.1 < n && s.get_char(o1.1) == '.') {
        proof {
            assert(o1.1 < n ==> s@.skip(o1.1 as int)[0] == s@[o1.1 as int]);
        }
        return None;
    }
    proof {
        assert(s@.skip(o1.1 as int)[0] == s@[o1.1 as int]);
        assert(s@.skip(o1.1 as int).drop_first() =~= s@.skip(o1.1 + 1));
    }
    let o2 = match parse_octet(s, o1.1 + 1, n) {
        Some(v) => v,
        None => {
            return None;
        },
    };
    if !(o2.1 < n && s.get_char(o2.1) == '.') {
        proof {
            assert(o2.1 < n ==> s@.skip(o2.1 as int)[0] == s@[o2.1 as int]);
        }
        return None;
    }
    proof {
        assert(s@.skip(o2.1 as int)[0] == s@[o2.1 as int]);
        assert(s@.skip(o2.1 as int).drop_first() =~= s@.skip(o2.1 + 1));
    }
    let o3 = match parse_octet(s, o2.1 + 1, n) {
        Some(v) => v,
        None => {
            return None;
        },
    };
    if !(o3.1 < n && s.get_char(o3.1) == '.') {
        proof {
            assert(o3.1 < n ==> s@.skip(o3.1 as int)[0] == s@[o3.1 as int]);
        }
        return None;
    }
    proof {
        assert(s@.skip(o3.1 as int)[0] == s@[o3.1 as int]);
        assert(s@.skip(o3.1 as int).drop_first() =~= s@.skip(o3.1 + 1));
    }
    let o4 = match parse_octet(s, o3.1 + 1, n) {
        Some(v) => v,
        None => {
            return None;
        },
    };
    if o4.1 == n {
        proof {
            assert(s@.skip(o4.1 as int).len() == 0);
        }
        Some(BindAddress { o1: o1.0, o2: o2.0, o3: o3.0, o4: o4.0 })
    } else {
        proof {
            assert(s@.skip(o4.1 as int).len() > 0);
        }
        None
    }
}

/// The index of the member whose value `find_val` reads for `key`: the
/// last occurrence, if any.
pub(crate) fn find_idx(pairs: &Vec<(String, JsonScalar)>, key: &String) -> (r: Option<usize>)
    ensures
        match r {
            Some(i) => i < pairs@.len() && find_val(pairs_model(pairs@), key@) == Some(
                pairs@[i as int].1@,
            ),
            None => find_val(pairs_model(pairs@), key@) is None,
        },
{
    let n = pairs.len();
    let mut i: usize = n;
    proof {
        assert(pairs_model(pairs@).take(n as int) =~= pairs_model(pairs@));
    }
    while i > 0
        invariant
            n == pairs@.len(),
            i <= n,
            find_val(pairs_model(pairs@), key@) == find_val(
                pairs_model(pairs@).take(i as int),
                key@,
            ),
        decreases i,
    {
        proof {
            assert(pairs_model(pairs@).take(i as int).last() == pairs_model(pairs@)[i - 1]);
            assert(pairs_model(pairs@).take(i as int).drop_last() =~= pairs_model(pairs@).take(
                i - 1,
            ));
        }
        if pairs[i - 1].0.eq(key) {
            return Some(i - 1);
        }
        i = i - 1;
    }
    proof {
        assert(pairs_model(pairs@).take(0).len() == 0);
    }
    None
}

impl SpautofyConfigFile {
    /// Renders the file in the exact shape it is persisted as.
    pub fn serialize(&self) -> (r: String)
        ensures
            r@ == file_json(self@),
    {
        let mut pairs: Vec<(String, JsonScalar)> = Vec::new();
        match &self.address {
            Some(a) => {
                let mut addr_s = String::new();
                a.append_to(&mut addr_s);
                proof {
                    assert(addr_s@ =~= self.address->0.chars());
                }
                pairs.push((String::from_str("address"), JsonScalar::Text(addr_s)));
            },
            None => {},
        }
        match &self.port {
            Some(p) => {
                pairs.push((String::from_str("port"), JsonScalar::Number(*p as u64)));
            },
            None => {},
        }
        pairs.push((String::from_str("client_id"), JsonScalar::Text(self.client_id.clone())));
        pairs.push(
            (String::from_str("client_secret"), JsonScalar::Text(self.client_secret.clone())),
        );
        proof {
            assert(pairs_model(pairs@) =~= file_pairs(self@));
        }
        render_object(&pairs)
    }

    /// Reads a member list back as a configuration file.
    pub fn from_pairs(pairs: &Vec<(String, JsonScalar)>) -> (r: Option<SpautofyConfigFile>)
        ensures
            match r {
                Some(f) => file_of_pairs(pairs_model(pairs@)) == Some(f@),
                None => file_of_pairs(pairs_model(pairs@)) is None,
            },
    {
        let key_id = String::from_str("client_id");
        let key_secret = String::from_str("client_secret");
        let key_addr = String::from_str("address");
        let key_port = String::from_str("port");
        let client_id = match find_idx(pairs, &key_id) {
            Some(i) => match &pairs[i].1 {
                JsonScalar::Text(s) => s.clone(),
                JsonScalar::Number(_) | JsonScalar::Other => {
                    return None;
                },
            },
            None => {
                return None;
            },
        };
        let client_secret = match find_idx(pairs, &key_secret) {
            Some(i) => match &pairs[i].1 {
                JsonScalar::Text(s) => s.clone(),
                JsonScalar::Number(_) | JsonScalar::Other => {
                    return None;
                },
            },
            None => {
                return None;
            },
        };
        let address = match find_idx(pairs, &key_addr) {
            Some(i) => match &pairs[i].1 {
                JsonScalar::Text(s) => match parse_ipv4(s.as_str()) {
                    Some(a) => Some(a),
                    None => {
                        return None;
                    },
                },
                JsonScalar::Number(_) | JsonScalar::Other => {
                    return None;
                },
            },
            None => None,
        };
        let port = match find_idx(pairs, &key_port) {
            Some(i) => match &pairs[i].1 {
                JsonScalar::Number(p) => {
                    if *p <= 65535 {
                        Some(*p as u16)
                    } else {
                        return None;
                    }
                },
                JsonScalar::Text(_) | JsonScalar::Other => {
                    return None;
                },
            },
            None => None,
        };
        Some(SpautofyConfigFile { address, port, client_id, client_secret })
    }

    /// Reads a persisted text back as a configuration file.
    pub fn parse(s: &str) -> (r: Option<SpautofyConfigFile>)
        ensures
            match r {
                Some(f) => parse_file_spec(s@) == Some(f@),
                None => parse_file_spec(s@) is None,
            },
    {
        match parse_object(s) {
            Some(pairs) => SpautofyConfigFile::from_pairs(&pairs),
            None => None,
        }
    }
}

/// Reading a rendered dotted-quad address back gives the same address.
pub proof fn lemma_p_ipv4_rt(a: BindAddress)
    ensures
        p_ipv4(a.chars()) == Some(a),
{
    let d1 = dec_rep(a.o1 as nat);
    let d2 = dec_rep(a.o2 as nat);
    let d3 = dec_rep(a.o3 as nat);
    let d4 = dec_rep(a.o4 as nat);
    let rest3 = seq!['.'] + d4;
    let rest2 = seq!['.'] + (d3 + rest3);
    let rest1 = seq!['.'] + (d2 + rest2);
    assert(!is_digit_char('.'));
    assert(a.chars() =~= d1 + rest1);
    lemma_p_number_rt(a.o1 as nat, rest1);
    assert(p_octet(a.chars()) == Some((a.o1 as nat, rest1)));
    assert(rest1[0] == '.');
    assert(rest1.drop_first() =~= d2 + rest2);
    lemma_p_number_rt(a.o2 as nat, rest2);
    assert(p_octet(rest1.drop_first()) == Some((a.o2 as nat, rest2)));
    assert(rest2[0] == '.');
    assert(rest2.drop_first() =~= d3 + rest3);
    lemma_p_number_rt(a.o3 as nat, rest3);
    assert(p_octet(rest2.drop_first()) == Some((a.o3 as nat, rest3)));
    assert(rest3[0] == '.');
    assert(rest3.drop_first() =~= d4 + Seq::<char>::empty());
    lemma_p_number_rt(a.o4 as nat, Seq::<char>::empty());
    assert(p_octet(rest3.drop_first()) == Some((a.o4 as nat, Seq::<char>::empty())));
    assert(p_ipv4(a.chars()) == Some(
        BindAddress {
            o1: (a.o1 as nat) as u8,
            o2: (a.o2 as nat) as u8,
            o3: (a.o3 as nat) as u8,
            o4: (a.o4 as nat) as u8,
        },
    ));
}

/// One lookup step: a final member under another key is skipped.
proof fn lemma_find_step(ms: Seq<(Seq<char>, ScalarModel)>, k: Seq<char>)
    requires
        ms.len() > 0,
        ms.last().0 != k,
    ensures
        find_val(ms, k) == find_val(ms.drop_last(), k),
{
}

/// Round trip of the persisted configuration: the exact text the store
/// writes for a file is read back as that same file, whatever the
/// credentials hold and whichever optional fields are present.
pub proof fn lemma_file_roundtrip(f: FileModel)
    ensures
        parse_file_spec(file_json(f)) == Some(f),
{
    reveal_strlit("address");
    reveal_strlit("port");
    reveal_strlit("client_id");
    reveal_strlit("client_secret");
    assert("address"@.len() == 7);
    assert("port"@.len() == 4);
    assert("client_id"@.len() == 9);
    assert("client_secret"@.len() == 13);
    let e_addr = ("address"@, ScalarModel::TextV(
        if f.address is Some {
            f.address->0.chars()
        } else {
            Seq::<char>::empty()
        },
    ));
    let e_port = ("port"@, ScalarModel::NumberV(
        if f.port is Some {
            f.port->0 as nat
        } else {
            0
        },
    ));
    let e_id = ("client_id"@, ScalarModel::TextV(f.client_id));
    let e_sec = ("client_secret"@, ScalarModel::TextV(f.client_secret));
    let ms = file_pairs(f);
    if f.address is Some {
        lemma_p_ipv4_rt(f.address->0);
    }
    let m0 = Seq::<(Seq<char>, ScalarModel)>::empty();
    let tail2 = seq![e_id, e_sec];
    assert(tail2.last() == e_sec);
    assert(tail2.drop_last() =~= seq![e_id]);
    assert(seq![e_id].drop_last() =~= m0);
    assert(find_val(tail2, "client_secret"@) == Some(e_sec.1));
    assert(find_val(seq![e_id], "client_id"@) == Some(e_id.1));
    lemma_find_step(tail2, "client_id"@);
    assert(find_val(m0, "address"@) is None);
    assert(find_val(m0, "port"@) is None);
    lemma_find_step(seq![e_id], "address"@);
    lemma_find_step(seq![e_id], "port"@);
    lemma_find_step(tail2, "address"@);
    lemma_find_step(tail2, "port"@);
    assert(find_val(tail2, "client_id"@) == Some(e_id.1));
    assert(find_val(tail2, "address"@) is None);
    assert(find_val(tail2, "port"@) is None);
    if f.address is Some && f.port is Some {
        let m3 = seq![e_addr, e_port, e_id];
        let m2 = seq![e_addr, e_port];
        let m1 = seq![e_addr];
        assert(ms =~= seq![e_addr, e_port, e_id, e_sec]);
        assert(ms.drop_last() =~= m3);
        assert(m3.drop_last() =~= m2);
        assert(m2.drop_last() =~= m1);
        assert(m1.drop_last() =~= m0);
        assert(find_val(ms, "client_secret"@) == Some(e_sec.1));
        lemma_find_step(ms, "client_id"@);
        assert(find_val(m3, "client_id"@) == Some(e_id.1));
        assert(find_val(ms, "client_id"@) == Some(e_id.1));
        lemma_find_step(ms, "port"@);
        lemma_find_step(m3, "port"@);
        assert(find_val(m2, "port"@) == Some(e_port.1));
        assert(find_val(ms, "port"@) == Some(e_port.1));
        lemma_find_step(ms, "address"@);
        lemma_find_step(m3, "address"@);
        lemma_find_step(m2, "address"@);
        assert(find_val(m1, "address"@) == Some(e_addr.1));
        assert(find_val(ms, "address"@) == Some(e_addr.1));
        assert(scalars_bounded(ms)) by {
            assert(ms[0] == e_addr && ms[1] == e_port && ms[2] == e_id && ms[3] == e_sec);
        }
    } else if f.address is Some {
        let n2 = seq![e_addr, e_id];
        let m1 = seq![e_addr];
        assert(ms =~= seq![e_addr, e_id, e_sec]);
        assert(ms.drop_last() =~= n2);
        assert(n2.drop_last() =~= m1);
        assert(m1.drop_last() =~= m0);
        assert(find_val(ms, "client_secret"@) == Some(e_sec.1));
        lemma_find_step(ms, "client_id"@);
        assert(find_val(n2, "client_id"@) == Some(e_id.1));
        assert(find_val(ms, "client_id"@) == Some(e_id.1));
        lemma_find_step(ms, "port"@);
        lemma_find_step(n2, "port"@);
        lemma_find_step(m1, "port"@);
        assert(find_val(ms, "port"@) is None);
        lemma_find_step(ms, "address"@);
        lemma_find_step(n2, "address"@);
        assert(find_val(m1, "address"@) == Some(e_addr.1));
        assert(find_val(ms, "address"@) == Some(e_addr.1));
        assert(scalars_bounded(ms)) by {
            assert(ms[0] == e_addr && ms[1] == e_id && ms[2] == e_sec);
        }
    } else if f.port is Some {
        let n2 = seq![e_port, e_id];
        let m1 = seq![e_port];
        assert(ms =~= seq![e_port, e_id, e_sec]);
        assert(ms.drop_last() =~= n2);
        assert(n2.drop_last() =~= m1);
        assert(m1.drop_last() =~= m0);
        assert(find_val(ms, "client_secret"@) == Some(e_sec.1));
        lemma_find_step(ms, "client_id"@);
        assert(find_val(n2, "client_id"@) == Some(e_id.1));
        assert(find_val(ms, "client_id"@) == Some(e_id.1));
        lemma_find_step(ms, "port"@);
        lemma_find_step(n2, "port"@);
        assert(find_val(m1, "port"@) == Some(e_port.1));
        assert(find_val(ms, "port"@) == Some(e_port.1));
        lemma_find_step(ms, "address"@);
        lemma_find_step(n2, "address"@);
        lemma_find_step(m1, "address"@);
        assert(find_val(ms, "address"@) is None);
        assert(scalars_bounded(ms)) by {
            assert(ms[0] == e_port && ms[1] == e_id && ms[2] == e_sec);
        }
    } else {
        assert(ms =~= tail2);
        assert(scalars_bounded(ms)) by {
            assert(ms[0] == e_id && ms[1] == e_sec);
        }
    }
    lemma_object_roundtrip(ms);
    assert(addr_of_pairs(ms) == Some(f.address));
    assert(port_of_pairs(ms) == Some(f.port));
    assert(file_of_pairs(ms) == Some(
        FileModel {
            address: f.address,
            port: f.port,
            client_id: f.client_id,
            client_secret: f.client_secret,
        },
    ));
}

/// A run's persisted snapshot reloads as exactly that snapshot: the
/// credentials, the bind address and the port all survive the file.
pub proof fn lemma_config_reload(c: SpautofyConfig)
    ensures
        parse_file_spec(file_json(config_snapshot(c))) == Some(config_snapshot(c)),
{
    lemma_file_roundtrip(config_snapshot(c));
}

} // verus!
