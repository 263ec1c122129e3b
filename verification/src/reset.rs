//! What the operator-gated reset of the target database needs to decide:
//! which database a connection string names, and whether the operator's
//! answer to the prompt is a yes. Dropping and creating the database is
//! left to the caller.

use crate::text::same_text;
use vstd::prelude::*;
use vstd::string::StrSliceExecFns;
use vstd::string::StringExecFns;

verus! {

/// What `str::trim` leaves of a text.
pub uninterp spec fn trimmed(text: Seq<char>) -> Seq<char>;

/// What `str::to_lowercase` makes of a text.
pub uninterp spec fn lower_cased(text: Seq<char>) -> Seq<char>;

/// Calls `str::trim`, which takes white space off both ends as Unicode
/// defines it. The outcome is a function of the text alone.
#[verifier::external_body]
fn trim(text: &str) -> (r: &str)
    ensures
        r@ == trimmed(text@),
{
    text.trim()
}

/// Calls `str::to_lowercase`, which maps each character to its lower-case
/// form as Unicode defines it. The outcome is a function of the text alone.
#[verifier::external_body]
fn lower_case(text: &str) -> (r: String)
    ensures
        r@ == lower_cased(text@),
{
    text.to_lowercase()
}

/// Whether a text, trimmed and in lower case already, says yes.
pub open spec fn says_yes(normalized: Seq<char>) -> bool {
    normalized == "y"@ || normalized == "yes"@
}

/// Whether a text, trimmed and in lower case already, says yes.
pub fn is_yes(normalized: &str) -> (r: bool)
    ensures
        r == says_yes(normalized@),
{
    same_text(normalized, "y") || same_text(normalized, "yes")
}

/// Whether the operator's answer confirms: `y` or `yes` in any case, with
/// white space around it or without.
pub fn is_affirmative(answer: &str) -> (r: bool)
    ensures
        r == says_yes(lower_cased(trimmed(answer@))),
{
    let text: String = lower_case(trim(answer));
    is_yes(text.as_str())
}

/// The position of the last slash of a text, or -1 if it has none.
pub open spec fn last_slash(s: Seq<char>) -> int
    decreases s.len(),
{
    if s.len() == 0 {
        -1
    } else if s.last() == '/' {
        s.len() - 1
    } else {
        last_slash(s.drop_last())
    }
}

/// The name of the database in a connection string: what follows its last
/// slash, or all of it if it has none.
pub open spec fn database_name_of(url: Seq<char>) -> Seq<char> {
    url.subrange(last_slash(url) + 1, url.len() as int)
}

/// A connection string without its database: what stands before its last
/// slash, or all of it if it has none.
pub open spec fn base_url_of(url: Seq<char>) -> Seq<char> {
    if last_slash(url) < 0 {
        url
    } else {
        url.subrange(0, last_slash(url))
    }
}

/// The question put to the operator before a database is dropped.
pub open spec fn reset_question(name: Seq<char>) -> Seq<char> {
    "DANGER!!! Are you sure you want to drop and recreate the database "@ + name + "? (y/N)?"@
}

/// The last slash is where a slash stands and none follows.
pub proof fn lemma_last_slash(s: Seq<char>, at: int)
    requires
        -1 <= at < s.len(),
        at >= 0 ==> s[at] == '/',
        forall|k: int| at < k < s.len() ==> s[k] != '/',
    ensures
        last_slash(s) == at,
    decreases s.len(),
{
    if s.len() > 0 && s.last() != '/' {
        lemma_last_slash(s.drop_last(), at);
    }
}

/// Finds the last slash of a text.
fn find_last_slash(text: &str) -> (r: Option<usize>)
    ensures
        match r {
            Some(at) => at == last_slash(text@) && at < text@.len(),
            None => last_slash(text@) == -1,
        },
        text@.len() <= usize::MAX,
{
    let n: usize = text.unicode_len();
    let mut i: usize = n;
    while i > 0
        invariant
            i <= n,
            n == text@.len(),
            forall|k: int| i <= k < n ==> text@[k] != '/',
        decreases i,
    {
        if text.get_char(i - 1) == '/' {
            proof {
                lemma_last_slash(text@, i - 1);
            }
            return Some(i - 1);
        }
        i = i - 1;
    }
    proof {
        lemma_last_slash(text@, -1);
    }
    None
}

/// The name of the database that a connection string ends in.
pub fn database_name(url: &str) -> (r: String)
    ensures
        r@ == database_name_of(url@),
{
    let n: usize = url.unicode_len();
    match find_last_slash(url) {
        Some(at) => url.substring_char(at + 1, n).to_owned(),
        None => {
            assert(url@.subrange(0, n as int) =~= url@);
            url.to_owned()
        },
    }
}

/// The connection string of the server, without the database.
pub fn base_url(url: &str) -> (r: String)
    ensures
        r@ == base_url_of(url@),
{
    match find_last_slash(url) {
        Some(at) => url.substring_char(0, at).to_owned(),
        None => url.to_owned(),
    }
}

/// Writes the question put to the operator before `name` is dropped.
pub fn reset_prompt(name: &str) -> (r: String)
    ensures
        r@ == reset_question(name@),
{
    let mut text: String = "DANGER!!! Are you sure you want to drop and recreate the database ".to_owned();
    text.append(name);
    text.append("? (y/N)?");
    text
}

} // verus!
