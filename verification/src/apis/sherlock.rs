//! The username-enumeration provider adapter's logic: the pre-flight
//! username filter and the collection of discovered profile URLs from the
//! session's text messages. The streaming session itself lives outside the
//! library; the messages it yielded are handed in as plain values.

use vstd::prelude::*;
use vstd::string::StrSliceExecFns;

use crate::tally::{spec_empty_tally, Tally, TallyV};
use crate::text::spec_has_substring;
use crate::types::AppError;

verus! {

/// An enumeration result: the username queried and the profile URLs found.
#[derive(Debug)]
pub struct SherlockResponse {
    pub username: String,
    pub sites: Vec<String>,
}

/// The enumeration provider's client state. The session endpoint is
/// configured outside the library, so the client itself carries nothing.
#[derive(Debug)]
pub struct Sherlock {}

/// Whether a character counts as alphabetic.
pub uninterp spec fn spec_char_is_alphabetic(c: char) -> bool;

/// Relies on `char::is_alphabetic` of std: whether the character is a
/// letter, a function of the character alone.
#[verifier::external_body]
fn char_is_alphabetic(c: char) -> (r: bool)
    ensures
        r == spec_char_is_alphabetic(c),
{
    c.is_alphabetic()
}

/// The characters the enumeration backend handles poorly.
pub open spec fn spec_invalid_username_chars() -> Seq<char> {
    seq![' ', '.', '-', '_', '#']
}

/// Whether a username passes the pre-flight filter: unless the override flag
/// is set, it must avoid the poorly-handled characters, start with a letter,
/// and be no longer than twenty characters.
pub open spec fn spec_valid_username(username: Seq<char>, allow_all: bool) -> bool {
    allow_all || {
        &&& forall|c: char|
            spec_invalid_username_chars().contains(c) ==> !(#[trigger] username.contains(c))
        &&& username.len() > 0
        &&& spec_char_is_alphabetic(username[0])
        &&& username.len() <= 20
    }
}

/// Which messages of a session count as discovered profiles: the text ones
/// that carry a URL.
pub open spec fn spec_profile_pred() -> spec_fn(Seq<char>) -> bool {
    |m: Seq<char>| spec_has_substring(m, "http"@)
}

/// The profile URLs among a session's messages, in the order they arrived.
pub open spec fn spec_profiles(messages: Seq<Seq<char>>) -> Seq<Seq<char>> {
    messages.filter(spec_profile_pred())
}

/// One more message is kept exactly when it carries a URL.
pub proof fn lemma_profiles_push(messages: Seq<Seq<char>>, m: Seq<char>)
    ensures
        spec_profiles(messages.push(m)) == if spec_has_substring(m, "http"@) {
            spec_profiles(messages).push(m)
        } else {
            spec_profiles(messages)
        },
{
    assert(messages.push(m).drop_last() =~= messages);
    assert(messages.push(m).last() == m);
    assert(spec_profile_pred()(m) == spec_has_substring(m, "http"@));
    reveal_with_fuel(Seq::filter, 2);
}

impl Sherlock {
    /// A client of the enumeration session endpoint.
    pub fn new() -> (s: Sherlock) {
        Sherlock {  }
    }

    /// The pre-flight filter: rejects usernames predicted to enumerate
    /// poorly, unless the override flag is set.
    pub fn is_valid_sherlock_username(username: &str, allow_all: bool) -> (r: bool)
        ensures
            r == spec_valid_username(username@, allow_all),
    {
        if allow_all {
            return true;
        }
        let n = username.unicode_len();
        if n == 0 || n > 20 {
            proof {
                if n == 0 {
                    assert(!spec_valid_username(username@, allow_all));
                }
            }
            return false;
        }
        if !char_is_alphabetic(username.get_char(0)) {
            return false;
        }
        let has_invalid = crate::text::contains_char(username, ' ')
            || crate::text::contains_char(username, '.') || crate::text::contains_char(
            username,
            '-',
        ) || crate::text::contains_char(username, '_') || crate::text::contains_char(
            username,
            '#',
        );
        proof {
            let inv = spec_invalid_username_chars();
            assert(inv[0] == ' ' && inv[1] == '.' && inv[2] == '-' && inv[3] == '_' && inv[4]
                == '#');
            assert forall|c: char| inv.contains(c) implies c == ' ' || c == '.' || c == '-' || c
                == '_' || c == '#' by {
                let i = choose|i: int| 0 <= i < inv.len() && inv[i] == c;
            }
            assert(inv.contains(' ') && inv.contains('.') && inv.contains('-') && inv.contains('_')
                && inv.contains('#'));
        }
        !has_invalid
    }

    /// Collect the discovered profiles of an enumeration session: validate
    /// the username, then keep exactly the session messages that carry a
    /// URL. Fails with `InvalidUsername`, and only with it, exactly when the
    /// pre-flight filter rejects the username.
    pub fn get_and_stringify_potential_profiles(
        &self,
        username: String,
        allow_all: bool,
        messages: Vec<String>,
    ) -> (r: Result<SherlockResponse, AppError>)
        ensures
            match r {
                Ok(resp) => {
                    &&& spec_valid_username(username@, allow_all)
                    &&& resp.username@ == username@
                    &&& resp.sites.deep_view() == spec_profiles(messages.deep_view())
                },
                Err(e) => {
                    &&& e == AppError::InvalidUsername
                    &&& !spec_valid_username(username@, allow_all)
                },
            },
    {
        if !Self::is_valid_sherlock_username(username.as_str(), allow_all) {
            return Err(AppError::InvalidUsername);
        }
        let ghost gm = messages.deep_view();
        let mut sites: Vec<String> = Vec::new();
        let n = messages.len();
        let mut i: usize = 0;
        proof {
            assert(gm.take(0) =~= Seq::<Seq<char>>::empty());
            assert(sites.deep_view() =~= spec_profiles(gm.take(0)));
        }
        while i < n
            invariant
                n == messages@.len(),
                i <= n,
                gm == messages.deep_view(),
                sites.deep_view() == spec_profiles(gm.take(i as int)),
            decreases n - i,
        {
            let m = &messages[i];
            let ghost pre = sites.deep_view();
            proof {
                assert(gm[i as int] == messages@[i as int]@);
                assert(gm.take(i + 1) =~= gm.take(i as int).push(gm[i as int]));
                lemma_profiles_push(gm.take(i as int), gm[i as int]);
            }
            if crate::text::contains_substr(m.as_str(), "http") {
                sites.push(m.clone());
                proof {
                    assert(sites.deep_view() =~= pre.push(m@));
                    assert(sites.deep_view() =~= spec_profiles(gm.take(i + 1)));
                }
            } else {
                assert(sites.deep_view() =~= spec_profiles(gm.take(i + 1)));
            }
            i = i + 1;
        }
        proof {
            assert(gm.take(n as int) =~= gm);
        }
        Ok(SherlockResponse { username, sites })
    }
}

/// The summary of an enumeration: how many profile URLs were discovered.
pub open spec fn spec_sherlock_tally(resp: &SherlockResponse) -> TallyV {
    TallyV { usernames: resp.sites@.len(), ..spec_empty_tally() }
}

/// Summarize an enumeration result.
pub fn sherlock_tally(resp: &SherlockResponse) -> (t: Tally)
    ensures
        t@ == spec_sherlock_tally(resp),
{
    let mut t = Tally::empty();
    t.usernames = resp.sites.len();
    t
}

} // verus!
