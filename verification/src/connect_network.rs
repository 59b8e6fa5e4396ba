use vstd::prelude::*;

use crate::errors::WifiConnectionError;

verus! {

/// Whether `pattern` occurs contiguously somewhere in `text`.
pub open spec fn contains_substr(text: Seq<char>, pattern: Seq<char>) -> bool {
    exists|i: int|
        0 <= i && i + pattern.len() <= text.len() && #[trigger] text.subrange(
            i,
            i + pattern.len(),
        ) == pattern
}

fn matches_at(text: &str, text_len: usize, pattern: &str, pattern_len: usize, at: usize) -> (r:
    bool)
    requires
        text_len == text@.len(),
        pattern_len == pattern@.len(),
        at + pattern_len <= text_len,
    ensures
        r == (text@.subrange(at as int, at + pattern_len) == pattern@),
{
    let mut j: usize = 0;
    while j < pattern_len
        invariant
            text_len == text@.len(),
            pattern_len == pattern@.len(),
            at + pattern_len <= text_len,
            j <= pattern_len,
            forall|k: int| 0 <= k < j ==> text@[at + k] == pattern@[k],
        decreases pattern_len - j,
    {
        if text.get_char(at + j) != pattern.get_char(j) {
            proof {
                assert(text@.subrange(at as int, at + pattern_len as int)[j as int] == text@[at
                    + j]);
            }
            return false;
        }
        j += 1;
    }
    proof {
        assert(text@.subrange(at as int, at + pattern_len as int) =~= pattern@);
    }
    true
}

/// Whether the pattern occurs contiguously somewhere in the text.
pub fn str_contains(text: &str, pattern: &str) -> (r: bool)
    ensures
        r == contains_substr(text@, pattern@),
{
    let text_len = text.unicode_len();
    let pattern_len = pattern.unicode_len();
    if pattern_len > text_len {
        return false;
    }
    if pattern_len == 0 {
        proof {
            assert(text@.subrange(0, 0 + pattern@.len() as int) =~= pattern@);
        }
        return true;
    }
    let mut i: usize = 0;
    let mut found: bool = false;
    while i <= text_len - pattern_len
        invariant
            text_len == text@.len(),
            pattern_len == pattern@.len(),
            1 <= pattern_len <= text_len,
            i <= text_len - pattern_len + 1,
            found ==> contains_substr(text@, pattern@),
            !found ==> forall|k: int|
                0 <= k < i ==> #[trigger] text@.subrange(k, k + pattern@.len()) != pattern@,
        decreases text_len - pattern_len - i + 1,
    {
        if matches_at(text, text_len, pattern, pattern_len, i) {
            found = true;
        }
        i += 1;
    }
    found
}

/// Whether a credential was really supplied: an absent credential and an
/// empty one count the same.
pub open spec fn credential_supplied(credential: Option<Seq<char>>) -> bool {
    match credential {
        Some(text) => text.len() > 0,
        None => false,
    }
}

/// The view of an optional credential string.
pub open spec fn credential_view(credential: Option<&str>) -> Option<Seq<char>> {
    match credential {
        Some(text) => Some(text@),
        None => None,
    }
}

/// How the connect tool's diagnostic text is classified, given whether a
/// credential was supplied: a request for keys without a credential means
/// none was provided, a missing network is reported as such, an
/// activation failure with a credential means the credential was wrong,
/// and anything else is unknown.
pub open spec fn spec_classify_failure(
    stderr: Seq<char>,
    credential: Option<Seq<char>>,
) -> WifiConnectionError {
    if contains_substr(stderr, "Passwords or encryption keys are required"@) && !credential_supplied(
        credential,
    ) {
        WifiConnectionError::NoPasswordProvided
    } else if contains_substr(stderr, "No suitable network found"@) {
        WifiConnectionError::NoSuchNetwork
    } else if contains_substr(stderr, "activation failed"@) && credential_supplied(credential) {
        WifiConnectionError::WrongPassword
    } else {
        WifiConnectionError::UnknownError
    }
}

/// Maps the connect tool's diagnostic text to a connection error.
pub fn handle_connection_error(stderr: &str, credential: Option<&str>) -> (r: WifiConnectionError)
    ensures
        r == spec_classify_failure(stderr@, credential_view(credential)),
{
    let supplied = match credential {
        Some(text) => !text.is_empty(),
        None => false,
    };
    if str_contains(stderr, "Passwords or encryption keys are required") && !supplied {
        WifiConnectionError::NoPasswordProvided
    } else if str_contains(stderr, "No suitable network found") {
        WifiConnectionError::NoSuchNetwork
    } else if str_contains(stderr, "activation failed") && supplied {
        WifiConnectionError::WrongPassword
    } else {
        WifiConnectionError::UnknownError
    }
}

/// Law of the empty credential: the classification of a failure with an
/// empty credential string is the classification with no credential at
/// all, whatever the diagnostic text says.
pub proof fn lemma_empty_credential_like_none(stderr: Seq<char>, credential: Seq<char>)
    requires
        credential.len() == 0,
    ensures
        spec_classify_failure(stderr, Some(credential)) == spec_classify_failure(stderr, None),
{
}

/// An absent or empty credential string normalizes to no credential.
pub fn normalize_credential(credential: &str) -> (r: Option<&str>)
    ensures
        credential@.len() == 0 ==> r is None,
        credential@.len() > 0 ==> r == Some(credential),
{
    if credential.is_empty() {
        None
    } else {
        Some(credential)
    }
}

/// The arguments handed to the connect tool: the credential and its
/// introducing word appear exactly when a credential is supplied.
pub fn connect_command_args<'a>(bssid: &'a str, credential: Option<&'a str>) -> (r: Vec<&'a str>)
    ensures
        (match credential {
            Some(word) => r.deep_view() =~= seq![
                "dev"@,
                "wifi"@,
                "connect"@,
                bssid@,
                "password"@,
                word@,
            ],
            None => r.deep_view() =~= seq!["dev"@, "wifi"@, "connect"@, bssid@],
        }),
{
    let mut args: Vec<&'a str> = Vec::new();
    args.push("dev");
    args.push("wifi");
    args.push("connect");
    args.push(bssid);
    if let Some(word) = credential {
        args.push("password");
        args.push(word);
    }
    proof {
        assert(args.deep_view() =~= args@.map_values(|s: &str| s@));
    }
    args
}

/// The `{message, status}` envelope reported for a connect outcome, with
/// its HTTP-like status code.
pub fn connection_response(outcome: &Result<(), WifiConnectionError>) -> (r: (&'static str, u16))
    ensures
        outcome is Ok ==> r.0@ == "Connected Successfully"@ && r.1 == 200,
        (match outcome {
            Ok(_) => true,
            Err(e) => (match e {
                WifiConnectionError::NoSuchNetwork => r.0@ == "No network"@ && r.1 == 404,
                WifiConnectionError::NoPasswordProvided => r.0@ == "No password provided"@ && r.1
                    == 502,
                WifiConnectionError::WrongPassword => r.0@ == "Wrong password"@ && r.1 == 401,
                WifiConnectionError::UnknownError => r.0@ == "Unknown error"@ && r.1 == 500,
                WifiConnectionError::AskingError => r.0@ == "Unknown error"@ && r.1 == 500,
            }),
        }),
{
    match outcome {
        Ok(_) => ("Connected Successfully", 200),
        Err(e) => match e {
            WifiConnectionError::NoSuchNetwork => ("No network", 404),
            WifiConnectionError::NoPasswordProvided => ("No password provided", 502),
            WifiConnectionError::WrongPassword => ("Wrong password", 401),
            WifiConnectionError::UnknownError => ("Unknown error", 500),
            WifiConnectionError::AskingError => ("Unknown error", 500),
        },
    }
}

} // verus!
