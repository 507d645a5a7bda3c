//! The allow-list for auxiliary "fix" commands: a hard boundary checked
//! before anything is spawned.

use vstd::prelude::*;
use crate::errors::AppError;
use crate::text::{push_str, to_chars, same_text, split_words, words_of, views, trim, trim_bounds, find_text, contains_text};

verus! {

/// Why a fix command is refused.
pub enum FixRejection {
    Empty,
    UnsafeCharacters,
    Quoting,
    Sudo,
    BrewNotInstall,
    WingetNotInstall,
    RustupNotUpdate,
    NotAllowed(Seq<char>),
}

/// Line breaks and the shell's pipe, sequence and redirection characters.
pub open spec fn is_unsafe_char(c: char) -> bool {
    c == '\n' || c == '\r' || c == '|' || c == '&' || c == ';' || c == '>' || c == '<'
}

pub open spec fn is_quote(c: char) -> bool {
    c == '"' || c == '\''
}

/// The verdict on a fix command: its program and arguments, or why it is
/// refused. Only `brew install ...`, `winget install ...` and exactly
/// `rustup update` pass, and no word may contain `sudo`.
pub open spec fn fix_verdict(cs: Seq<char>) -> Result<(Seq<char>, Seq<Seq<char>>), FixRejection> {
    let t = trim(cs);
    if t.len() == 0 {
        Err(FixRejection::Empty)
    } else if exists|i: int| 0 <= i < t.len() && is_unsafe_char(#[trigger] t[i]) {
        Err(FixRejection::UnsafeCharacters)
    } else if exists|i: int| 0 <= i < t.len() && is_quote(#[trigger] t[i]) {
        Err(FixRejection::Quoting)
    } else {
        let w = words_of(t);
        if w.len() == 0 {
            Err(FixRejection::Empty)
        } else {
            let p = w[0];
            let a = w.drop_first();
            if exists|i: int| 0 <= i < w.len() && contains_text(#[trigger] w[i], "sudo"@) {
                Err(FixRejection::Sudo)
            } else if p == "brew"@ {
                if a.len() > 0 && a[0] == "install"@ {
                    Ok((p, a))
                } else {
                    Err(FixRejection::BrewNotInstall)
                }
            } else if p == "winget"@ {
                if a.len() > 0 && a[0] == "install"@ {
                    Ok((p, a))
                } else {
                    Err(FixRejection::WingetNotInstall)
                }
            } else if p == "rustup"@ {
                if a == seq!["update"@] {
                    Ok((p, a))
                } else {
                    Err(FixRejection::RustupNotUpdate)
                }
            } else {
                Err(FixRejection::NotAllowed(p))
            }
        }
    }
}

/// The message that comes with each refusal.
pub open spec fn rejection_message(j: FixRejection) -> Seq<char> {
    match j {
        FixRejection::Empty => "command is empty"@,
        FixRejection::UnsafeCharacters => "unsupported command: contains unsafe shell characters"@,
        FixRejection::Quoting => "unsupported command: quoting is not allowed"@,
        FixRejection::Sudo => "unsupported command: sudo is not allowed"@,
        FixRejection::BrewNotInstall => "unsupported brew command (only `brew install ...` is allowed)"@,
        FixRejection::WingetNotInstall => "unsupported winget command (only `winget install ...` is allowed)"@,
        FixRejection::RustupNotUpdate => "unsupported rustup command (only `rustup update` is allowed)"@,
        FixRejection::NotAllowed(p) => "unsupported command: `"@ + p + "` is not allowed"@,
    }
}

/// Whether `cs[a..b]` holds an unsafe character.
fn has_unsafe(cs: &Vec<char>, a: usize, b: usize) -> (r: bool)
    requires
        a <= b <= cs@.len(),
    ensures
        r == exists|i: int| 0 <= i < b - a && is_unsafe_char(#[trigger] cs@.subrange(a as int, b as int)[i]),
{
    let ghost t = cs@.subrange(a as int, b as int);
    let mut i: usize = a;
    while i < b
        invariant
            a <= i <= b <= cs@.len(),
            t == cs@.subrange(a as int, b as int),
            forall|j: int| 0 <= j < i - a ==> !is_unsafe_char(#[trigger] t[j]),
        decreases b - i,
    {
        let c = cs[i];
        if c == '\n' || c == '\r' || c == '|' || c == '&' || c == ';' || c == '>' || c == '<' {
            assert(t[i - a] == c);
            return true;
        }
        assert(t[i - a] == c);
        i = i + 1;
    }
    false
}

/// Whether `cs[a..b]` holds a quote.
fn has_quote(cs: &Vec<char>, a: usize, b: usize) -> (r: bool)
    requires
        a <= b <= cs@.len(),
    ensures
        r == exists|i: int| 0 <= i < b - a && is_quote(#[trigger] cs@.subrange(a as int, b as int)[i]),
{
    let ghost t = cs@.subrange(a as int, b as int);
    let mut i: usize = a;
    while i < b
        invariant
            a <= i <= b <= cs@.len(),
            t == cs@.subrange(a as int, b as int),
            forall|j: int| 0 <= j < i - a ==> !is_quote(#[trigger] t[j]),
        decreases b - i,
    {
        let c = cs[i];
        if c == '"' || c == '\'' {
            assert(t[i - a] == c);
            return true;
        }
        assert(t[i - a] == c);
        i = i + 1;
    }
    false
}

/// Whether some word contains `sudo`.
fn any_sudo(words: &Vec<String>) -> (r: bool)
    ensures
        r == exists|i: int| 0 <= i < words@.len() && contains_text(#[trigger] views(words@)[i], "sudo"@),
{
    let sudo = to_chars("sudo");
    let mut k: usize = 0;
    while k < words.len()
        invariant
            k <= words@.len(),
            sudo@ == "sudo"@,
            forall|m: int| 0 <= m < k ==> !contains_text(#[trigger] views(words@)[m], "sudo"@),
        decreases words.len() - k,
    {
        let wc = to_chars(words[k].as_str());
        if find_text(wc.as_slice(), sudo.as_slice()) {
            assert(contains_text(views(words@)[k as int], "sudo"@));
            return true;
        }
        k = k + 1;
    }
    false
}

/// Checks a fix command against the allow-list and splits it into program
/// and arguments.
pub fn validate_and_parse_fix_command(command_str: &str) -> (r: Result<(String, Vec<String>), AppError>)
    ensures
        match r {
            Ok((p, a)) => fix_verdict(command_str@) == Ok::<(Seq<char>, Seq<Seq<char>>), FixRejection>(
                (p@, views(a@)),
            ),
            Err(e) => (fix_verdict(command_str@) matches Err(j) && e.message@ == rejection_message(j)),
        },
{
    let cs = to_chars(command_str);
    assert(cs@.subrange(0, cs@.len() as int) =~= cs@);
    let (a, b) = trim_bounds(cs.as_slice(), 0, cs.len());
    let ghost t = cs@.subrange(a as int, b as int);
    if a == b {
        return Err(AppError::unknown("command is empty".to_owned()));
    }
    if has_unsafe(&cs, a, b) {
        return Err(AppError::unknown("unsupported command: contains unsafe shell characters".to_owned()));
    }
    if has_quote(&cs, a, b) {
        return Err(AppError::unknown("unsupported command: quoting is not allowed".to_owned()));
    }
    let mut words = split_words(cs.as_slice(), a, b);
    if words.len() == 0 {
        return Err(AppError::unknown("command is empty".to_owned()));
    }
    if any_sudo(&words) {
        return Err(AppError::unknown("unsupported command: sudo is not allowed".to_owned()));
    }
    let ghost all = words@;
    let program = words.remove(0);
    assert(views(all).drop_first() =~= views(words@));
    assert(views(all)[0] == program@);
    let first_is = |w: &str| -> (r: bool)
        ensures
            r == (words@.len() > 0 && words@[0]@ == w@),
        { words.len() > 0 && same_text(words[0].as_str(), w) };
    if same_text(program.as_str(), "brew") {
        if !first_is("install") {
            return Err(
                AppError::unknown(
                    "unsupported brew command (only `brew install ...` is allowed)".to_owned(),
                ),
            );
        }
    } else if same_text(program.as_str(), "winget") {
        if !first_is("install") {
            return Err(
                AppError::unknown(
                    "unsupported winget command (only `winget install ...` is allowed)".to_owned(),
                ),
            );
        }
    } else if same_text(program.as_str(), "rustup") {
        let exact = words.len() == 1 && same_text(words[0].as_str(), "update");
        assert(exact == (views(words@) == seq!["update"@])) by {
            if views(words@) == seq!["update"@] {
                assert(views(words@)[0] == words@[0]@);
            }
            if exact {
                assert(views(words@) =~= seq!["update"@]);
            }
        }
        if !exact {
            return Err(
                AppError::unknown(
                    "unsupported rustup command (only `rustup update` is allowed)".to_owned(),
                ),
            );
        }
    } else {
        let mut message = "unsupported command: `".to_owned();
        push_str(&mut message, program.as_str());
        push_str(&mut message, "` is not allowed");
        return Err(AppError::unknown(message));
    }
    Ok((program, words))
}

} // verus!
