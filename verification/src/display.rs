//! Text the renderer shows for sizes, file states, conflict summaries and
//! endpoint paths.

use vstd::prelude::*;
use vstd::string::StrSliceExecFns;
use vstd::string::StringExecFns;

use crate::endpoint::home_dir_string;
use crate::mutagen::Change;
use crate::mutagen::ChangeView;
use crate::mutagen::FileState;
use crate::mutagen::FileStateView;
use crate::text::dec_rep;
use crate::text::rfind_char;
use crate::text::starts_with_seq;
use crate::text::str_starts_with;
use crate::text::u64_to_string;

verus! {

/// What `truncate_digest` returns: the first eight characters of a digest,
/// or the whole of a shorter one.
pub open spec fn truncated_digest_rep(d: Seq<char>) -> Seq<char> {
    if d.len() >= 8 {
        d.subrange(0, 8)
    } else {
        d
    }
}

/// Truncate a digest to eight characters for display; a short digest is
/// shown whole rather than sliced out of range.
pub fn truncate_digest(digest: &str) -> (r: &str)
    ensures
        r@ == truncated_digest_rep(digest@),
{
    let n = digest.unicode_len();
    if n >= 8 {
        digest.substring_char(0, 8)
    } else {
        digest
    }
}

/// One size unit's tenths, rounding half upward.
pub open spec fn size_tenths(bytes: u64, unit: u64) -> int {
    ((bytes * 10) + (unit / 2)) / (unit as int)
}

/// What `format_size` returns: a one-decimal multiple of the largest unit
/// the size reaches, or the exact byte count below one kibibyte.
pub open spec fn format_size_rep(bytes: u64) -> Seq<char> {
    if bytes >= 1073741824 {
        let t = size_tenths(bytes, 1073741824);
        dec_rep((t / 10) as nat) + "."@ + seq![crate::text::digit_char((t % 10) as nat)] + "G"@
    } else if bytes >= 1048576 {
        let t = size_tenths(bytes, 1048576);
        dec_rep((t / 10) as nat) + "."@ + seq![crate::text::digit_char((t % 10) as nat)] + "M"@
    } else if bytes >= 1024 {
        let t = size_tenths(bytes, 1024);
        dec_rep((t / 10) as nat) + "."@ + seq![crate::text::digit_char((t % 10) as nat)] + "K"@
    } else {
        dec_rep(bytes as nat) + "B"@
    }
}

fn one_decimal(bytes: u64, unit: u64, suffix: &str) -> (r: String)
    requires
        unit == 1073741824 || unit == 1048576 || unit == 1024,
    ensures
        r@ == dec_rep((size_tenths(bytes, unit) / 10) as nat) + "."@ + seq![
            crate::text::digit_char((size_tenths(bytes, unit) % 10) as nat),
        ] + suffix@,
{
    proof {
        reveal_strlit(".");
    }
    let tenths: u128 = ((bytes as u128) * 10 + ((unit / 2) as u128)) / (unit as u128);
    proof {
        assert(tenths == size_tenths(bytes, unit));
        let numerator = (bytes as int) * 10 + (unit as int) / 2;
        let bound = 0xFFFF_FFFF_FFFF_FFFFint * 10 + 536870912;
        vstd::arithmetic::div_mod::lemma_div_is_ordered(numerator, bound, unit as int);
        vstd::arithmetic::div_mod::lemma_div_is_ordered_by_denominator(bound, 1024, unit as int);
        assert(tenths <= bound / 1024);
    }
    let whole: u64 = (tenths / 10) as u64;
    let frac: u64 = (tenths % 10) as u64;
    let mut out = u64_to_string(whole);
    out.append(".");
    let frac_str = u64_to_string(frac);
    proof {
        assert(dec_rep(frac as nat) =~= seq![crate::text::digit_char(frac as nat)]);
    }
    out.append(frac_str.as_str());
    out.append(suffix);
    out
}

/// Format a byte count as a short human-readable size.
pub fn format_size(bytes: u64) -> (r: String)
    ensures
        r@ == format_size_rep(bytes),
{
    proof {
        reveal_strlit("G");
        reveal_strlit("M");
        reveal_strlit("K");
        reveal_strlit("B");
    }
    if bytes >= 1073741824 {
        one_decimal(bytes, 1073741824, "G")
    } else if bytes >= 1048576 {
        one_decimal(bytes, 1048576, "M")
    } else if bytes >= 1024 {
        one_decimal(bytes, 1024, "K")
    } else {
        let mut out = u64_to_string(bytes);
        out.append("B");
        out
    }
}

/// What `format_file_state` returns: a truncated digest with the file
/// kind, the bare kind without a digest, or a dash for an absent state.
pub open spec fn file_state_rep(st: Option<FileStateView>) -> Seq<char> {
    match st {
        Some(fs) => match fs.digest {
            Some(d) => truncated_digest_rep(d) + " ("@ + fs.kind + ")"@,
            None => fs.kind,
        },
        None => "-"@,
    }
}

/// Format one side of a change for display.
pub fn format_file_state(state: &Option<FileState>) -> (r: String)
    ensures
        r@ == file_state_rep(state.deep_view()),
{
    proof {
        reveal_strlit(" (");
        reveal_strlit(")");
        reveal_strlit("-");
    }
    match state {
        Some(fs) => match &fs.digest {
            Some(digest) => {
                let mut out = truncate_digest(digest.as_str()).to_owned();
                out.append(" (");
                out.append(fs.kind.as_str());
                out.append(")");
                out
            },
            None => fs.kind.clone(),
        },
        None => String::from_str("-"),
    }
}

/// How one change reads in a conflict summary: its path, and the state
/// transition where the two sides differ.
pub open spec fn change_summary_rep(c: ChangeView) -> Seq<char> {
    let old_state = file_state_rep(c.old);
    let new_state = file_state_rep(c.new);
    if old_state == new_state {
        c.path
    } else {
        c.path + " ("@ + old_state + " → "@ + new_state + ")"@
    }
}

/// The summary entries for a change list: at most three changes, then one
/// overflow marker counting the rest.
pub open spec fn summary_parts_rep(changes: Seq<ChangeView>) -> Seq<Seq<char>> {
    let shown = if changes.len() > 3 {
        3int
    } else {
        changes.len() as int
    };
    Seq::new(shown as nat, |i: int| change_summary_rep(changes[i])) + if changes.len() > 3 {
        seq!["+"@ + dec_rep((changes.len() - 3) as nat) + " more"@]
    } else {
        Seq::empty()
    }
}

/// The first `n` parts joined with a separator.
pub open spec fn join_upto(parts: Seq<Seq<char>>, sep: Seq<char>, n: int) -> Seq<char>
    decreases n,
{
    if n <= 0 {
        Seq::empty()
    } else if n == 1 {
        parts[0]
    } else {
        join_upto(parts, sep, n - 1) + sep + parts[n - 1]
    }
}

/// What `summarize_conflict_changes` returns: the entries joined with
/// commas, or a fixed text for an empty list.
pub open spec fn conflict_summary_rep(changes: Seq<ChangeView>) -> Seq<char> {
    if changes.len() == 0 {
        "No changes"@
    } else {
        let parts = summary_parts_rep(changes);
        join_upto(parts, ", "@, parts.len() as int)
    }
}

fn change_summary(c: &Change) -> (r: String)
    ensures
        r@ == change_summary_rep(c@),
{
    proof {
        reveal_strlit(" (");
        reveal_strlit(" → ");
        reveal_strlit(")");
    }
    let old_state = format_file_state(&c.old);
    let new_state = format_file_state(&c.new);
    if old_state == new_state {
        c.path.clone()
    } else {
        let mut out = c.path.clone();
        out.append(" (");
        out.append(old_state.as_str());
        out.append(" → ");
        out.append(new_state.as_str());
        out.append(")");
        out
    }
}

/// Summarize a conflict's change list in one line: up to three changes
/// with their state transitions, and a count of any further ones.
pub fn summarize_conflict_changes(changes: &[Change]) -> (r: String)
    ensures
        r@ == conflict_summary_rep(changes.deep_view()),
{
    proof {
        reveal_strlit("No changes");
        reveal_strlit(", ");
        reveal_strlit("+");
        reveal_strlit(" more");
    }
    let ghost cv = changes.deep_view();
    let ghost parts = summary_parts_rep(cv);
    let n = changes.len();
    if n == 0 {
        return String::from_str("No changes");
    }
    let shown: usize = if n > 3 {
        3
    } else {
        n
    };
    proof {
        assert(parts.len() == shown + if cv.len() > 3 {
            1int
        } else {
            0int
        });
    }
    let mut out = change_summary(&changes[0]);
    proof {
        assert(parts[0] == change_summary_rep(cv[0]));
        assert(out@ == join_upto(parts, ", "@, 1));
    }
    let mut i: usize = 1;
    while i < shown
        invariant
            cv == changes.deep_view(),
            parts == summary_parts_rep(cv),
            n == cv.len(),
            n > 0,
            shown == if n > 3 {
                3int
            } else {
                n as int
            },
            1 <= i <= shown,
            out@ == join_upto(parts, ", "@, i as int),
        decreases shown - i,
    {
        let part = change_summary(&changes[i]);
        out.append(", ");
        out.append(part.as_str());
        proof {
            assert(parts[i as int] == change_summary_rep(cv[i as int]));
            assert(out@ == join_upto(parts, ", "@, i + 1));
        }
        i = i + 1;
    }
    if n > 3 {
        let mut more = String::from_str("+");
        let count = u64_to_string((n - 3) as u64);
        more.append(count.as_str());
        more.append(" more");
        out.append(", ");
        out.append(more.as_str());
        proof {
            assert(parts[shown as int] == "+"@ + dec_rep((cv.len() - 3) as nat) + " more"@);
            assert(out@ == join_upto(parts, ", "@, shown + 1));
            assert(parts.len() == shown + 1);
        }
    }
    out
}

/// What tilde abbreviation does to a bare path: the user's own home prefix
/// becomes `~`, and any other directory under `/home` becomes `~` with the
/// user's name.
pub open spec fn tilde_fallback_rep(p: Seq<char>) -> Seq<char> {
    if starts_with_seq(p, "/home/"@) {
        "~"@ + p.skip("/home/"@.len() as int)
    } else {
        p
    }
}

pub open spec fn tilde_path_rep(p: Seq<char>, home: Option<Seq<char>>) -> Seq<char> {
    match home {
        Some(h) => if h.len() > 0 && starts_with_seq(p, h) {
            "~"@ + p.skip(h.len() as int)
        } else {
            tilde_fallback_rep(p)
        },
        None => tilde_fallback_rep(p),
    }
}

/// What `apply_tilde` returns: the path component after the last colon is
/// abbreviated, so SSH-style endpoints keep their `user@host:` prefix.
pub open spec fn tilde_endpoint_rep(e: Seq<char>, home: Option<Seq<char>>) -> Seq<char> {
    match e.index_of_last(':') {
        Some(c) => e.subrange(0, c + 1) + tilde_path_rep(e.subrange(c + 1, e.len() as int), home),
        None => tilde_path_rep(e, home),
    }
}

/// Abbreviate a path against an explicit home directory.
pub fn apply_tilde_with(endpoint: &str, home: Option<&str>) -> (r: String)
    ensures
        r@ == tilde_endpoint_rep(endpoint@, home.deep_view()),
{
    proof {
        endpoint@.index_of_last_ensures(':');
    }
    let n = endpoint.unicode_len();
    match rfind_char(endpoint, ':') {
        Some(c) => {
            proof {
                let iol = endpoint@.index_of_last(':');
                assert(iol.is_some()) by {
                    if iol.is_none() {
                        assert(!endpoint@.contains(':'));
                        assert(endpoint@[c as int] == ':');
                    }
                }
                let k = iol.unwrap();
                assert(k == c);
            }
            let mut out = endpoint.substring_char(0, c + 1).to_owned();
            let tail = apply_tilde_path(endpoint.substring_char(c + 1, n), home);
            out.append(tail.as_str());
            out
        },
        None => {
            proof {
                let iol = endpoint@.index_of_last(':');
                if iol.is_some() {
                    let k = iol.unwrap();
                    assert(endpoint@[k] == ':');
                }
            }
            apply_tilde_path(endpoint, home)
        },
    }
}

fn apply_tilde_path(path: &str, home: Option<&str>) -> (r: String)
    ensures
        r@ == tilde_path_rep(path@, home.deep_view()),
{
    proof {
        reveal_strlit("~");
        reveal_strlit("/home/");
    }
    let n = path.unicode_len();
    match home {
        Some(h) => {
            let hn = h.unicode_len();
            if hn > 0 && str_starts_with(path, h) {
                let mut out = String::from_str("~");
                out.append(path.substring_char(hn, n));
                return out;
            }
        },
        None => {},
    }
    if str_starts_with(path, "/home/") {
        let mut out = String::from_str("~");
        out.append(path.substring_char(6, n));
        out
    } else {
        path.to_owned()
    }
}

/// Abbreviate the home directory in an endpoint's path component to a
/// tilde.
pub fn apply_tilde(endpoint: &str) -> (r: String)
    ensures
        exists|home: Option<Seq<char>>| r@ == tilde_endpoint_rep(endpoint@, home),
{
    let home = home_dir_string();
    match &home {
        Some(h) => {
            let ghost hv = Some(h@);
            let r = apply_tilde_with(endpoint, Some(h.as_str()));
            proof {
                assert(r@ == tilde_endpoint_rep(endpoint@, hv));
            }
            r
        },
        None => {
            let ghost hv = None::<Seq<char>>;
            let r = apply_tilde_with(endpoint, None);
            proof {
                assert(r@ == tilde_endpoint_rep(endpoint@, hv));
            }
            r
        },
    }
}

} // verus!
