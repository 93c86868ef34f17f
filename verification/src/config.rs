//! The configuration that drives a run, and the provider-facing
//! requests built from it.

use vstd::prelude::*;

use crate::authorize::AuthorizeError;
use crate::numfmt::{dec_rep, push_dec, string_push};
use crate::urlenc::{append_form_encoded, form_encoded_str};

verus! {

/// The scopes requested from the provider for every handshake.
pub const AUTHORIZATION_SCOPES: &'static str =
    "user-top-read playlist-read-private playlist-modify-private";

/// A local bind address, stored as its four octets.
#[derive(Clone, Copy, Debug, PartialEq, Eq, Structural)]
pub struct BindAddress {
    pub o1: u8,
    pub o2: u8,
    pub o3: u8,
    pub o4: u8,
}

impl BindAddress {
    /// The dotted decimal rendering of the address.
    pub open spec fn chars(self) -> Seq<char> {
        dec_rep(self.o1 as nat) + seq!['.'] + dec_rep(self.o2 as nat) + seq!['.'] + dec_rep(
            self.o3 as nat,
        ) + seq!['.'] + dec_rep(self.o4 as nat)
    }

    pub open spec fn localhost_spec() -> BindAddress {
        BindAddress { o1: 127, o2: 0, o3: 0, o4: 1 }
    }

    /// The default bind address, 127.0.0.1.
    pub fn localhost() -> (r: BindAddress)
        ensures
            r == BindAddress::localhost_spec(),
    {
        BindAddress { o1: 127, o2: 0, o3: 0, o4: 1 }
    }

    /// Appends the dotted decimal rendering of the address to `out`.
    pub fn append_to(self, out: &mut String)
        ensures
            final(out)@ == old(out)@ + self.chars(),
    {
        push_dec(out, self.o1 as u64);
        string_push(out, '.');
        push_dec(out, self.o2 as u64);
        string_push(out, '.');
        push_dec(out, self.o3 as u64);
        string_push(out, '.');
        push_dec(out, self.o4 as u64);
        assert(out@ =~= old(out)@ + self.chars());
    }
}

/// The shape of the persisted configuration: credentials are required,
/// the bind address and port are optional.
#[derive(Debug, Clone)]
pub struct SpautofyConfigFile {
    pub address: Option<BindAddress>,
    pub port: Option<u16>,
    pub client_id: String,
    pub client_secret: String,
}

/// The in-memory configuration driving one run: persisted fields with
/// defaults applied, plus the state of the current handshake.
#[derive(Debug, Clone)]
pub struct SpautofyConfig {
    pub address: BindAddress,
    pub port: u16,
    pub client_id: String,
    pub client_secret: String,
    pub user_auth_code: Option<String>,
    pub random_state: String,
}

impl SpautofyConfig {
    /// Builds the run configuration from a loaded file, applying the
    /// defaults 127.0.0.1 and port 3000, with no captured code and no
    /// correlation token issued yet.
    pub fn from_file(file: SpautofyConfigFile) -> (r: SpautofyConfig)
        ensures
            r.address == (if file.address is Some {
                file.address->0
            } else {
                BindAddress::localhost_spec()
            }),
            r.port == (if file.port is Some {
                file.port->0
            } else {
                3000u16
            }),
            r.client_id == file.client_id,
            r.client_secret == file.client_secret,
            r.user_auth_code is None,
            r.random_state@ == Seq::<char>::empty(),
    {
        let address = match file.address {
            Some(a) => a,
            None => BindAddress::localhost(),
        };
        let port = match file.port {
            Some(p) => p,
            None => 3000,
        };
        SpautofyConfig {
            address,
            port,
            client_id: file.client_id,
            client_secret: file.client_secret,
            user_auth_code: None,
            random_state: String::new(),
        }
    }

    /// The persisted snapshot of this configuration. Only the credentials
    /// and the bind address survive a run: the captured code and the
    /// correlation token are deliberately not written back.
    pub fn to_file(&self) -> (r: SpautofyConfigFile)
        ensures
            r.address == Some(self.address),
            r.port == Some(self.port),
            r.client_id == self.client_id,
            r.client_secret == self.client_secret,
    {
        SpautofyConfigFile {
            address: Some(self.address),
            port: Some(self.port),
            client_id: self.client_id.clone(),
            client_secret: self.client_secret.clone(),
        }
    }

    /// The invariant every handshake assumes: the provider-issued
    /// credentials are present. The store fails fast before this point.
    pub open spec fn credentials_present(self) -> bool {
        self.client_id@.len() > 0 && self.client_secret@.len() > 0
    }

    /// Whether a handshake is still needed: no authorization code captured.
    pub fn needs_auth(&self) -> (r: bool)
        ensures
            r == (self.user_auth_code is None),
    {
        self.user_auth_code.is_none()
    }

    /// The redirect URI derived from the bind address and port.
    pub open spec fn redirect_url_chars(self) -> Seq<char> {
        "http://"@ + self.address.chars() + seq![':'] + dec_rep(self.port as nat) + "/callback"@
    }

    pub fn redirect_url(&self) -> (r: String)
        ensures
            r@ == self.redirect_url_chars(),
    {
        let mut s = String::new();
        s.append("http://");
        self.address.append_to(&mut s);
        string_push(&mut s, ':');
        push_dec(&mut s, self.port as u64);
        s.append("/callback");
        assert(s@ =~= self.redirect_url_chars());
        s
    }

    /// The provider-facing authorization URL for this configuration and
    /// its current correlation token.
    pub open spec fn auth_url_chars(self) -> Seq<char> {
        "https://accounts.spotify.com/authorize?client_id="@ + form_encoded_str(self.client_id@)
            + "&response_type=code&redirect_uri="@ + form_encoded_str(self.redirect_url_chars())
            + "&scope="@ + form_encoded_str(AUTHORIZATION_SCOPES@) + "&show_dialog=true&state="@
            + form_encoded_str(self.random_state@)
    }

    pub fn auth_request(&self) -> (r: String)
        requires
            self.credentials_present(),
        ensures
            r@ == self.auth_url_chars(),
    {
        let mut s = String::new();
        s.append("https://accounts.spotify.com/authorize?client_id=");
        append_form_encoded(&mut s, self.client_id.as_str());
        s.append("&response_type=code&redirect_uri=");
        let redirect = self.redirect_url();
        append_form_encoded(&mut s, redirect.as_str());
        s.append("&scope=");
        append_form_encoded(&mut s, AUTHORIZATION_SCOPES);
        s.append("&show_dialog=true&state=");
        append_form_encoded(&mut s, self.random_state.as_str());
        assert(s@ =~= self.auth_url_chars());
        s
    }

    /// The form body sent to the token endpoint to exchange the captured
    /// authorization code.
    pub open spec fn token_request_body_chars(self, code: Seq<char>) -> Seq<char> {
        "grant_type=authorization_code&code="@ + form_encoded_str(code) + "&redirect_uri="@
            + form_encoded_str(self.redirect_url_chars())
    }

    /// Builds the code-exchange form body, or reports that no code has
    /// been captured yet.
    pub fn access_token_request(&self) -> (r: Result<String, AuthorizeError>)
        ensures
            match r {
                Ok(body) => self.user_auth_code is Some && body@ == self.token_request_body_chars(
                    self.user_auth_code->0@,
                ),
                Err(e) => self.user_auth_code is None && e is NoUserAuthCode,
            },
    {
        match &self.user_auth_code {
            None => Err(AuthorizeError::NoUserAuthCode),
            Some(code) => {
                let mut s = String::new();
                s.append("grant_type=authorization_code&code=");
                append_form_encoded(&mut s, code.as_str());
                s.append("&redirect_uri=");
                let redirect = self.redirect_url();
                append_form_encoded(&mut s, redirect.as_str());
                assert(s@ =~= self.token_request_body_chars(self.user_auth_code->0@));
                Ok(s)
            },
        }
    }

    /// The form body sent to the token endpoint to refresh an expired
    /// access token.
    pub open spec fn refresh_request_body_chars(refresh_token: Seq<char>) -> Seq<char> {
        "grant_type=refresh_token&refresh_token="@ + form_encoded_str(refresh_token)
    }

    pub fn refresh_token_request(&self, refresh_token: &str) -> (r: String)
        ensures
            r@ == SpautofyConfig::refresh_request_body_chars(refresh_token@),
    {
        let mut s = String::new();
        s.append("grant_type=refresh_token&refresh_token=");
        append_form_encoded(&mut s, refresh_token);
        assert(s@ =~= SpautofyConfig::refresh_request_body_chars(refresh_token@));
        s
    }
}

} // verus!
