//! The routing-command grammar: `target:method` with an optional
//! `?arg&arg&...` suffix, as in `server:pdf?thumb=false&page=2`.  The target
//! is the scheme that routing dispatches on; the method names the operation;
//! the arguments are kept as the plain `&`-separated segments, empty ones
//! included.

use vstd::prelude::*;
use vstd::string::StrSliceExecFns;
use crate::ws_error::WSError;

verus! {

/// The model of a parsed command.
#[verifier::ext_equal]
pub struct CommandView {
    pub target: Seq<char>,
    pub method: Seq<char>,
    pub args: Seq<Seq<char>>,
}

/// A parsed routing command.
#[derive(Debug, Clone, PartialEq, Eq)]
pub struct Command {
    pub target: String,
    pub method: String,
    pub args: Vec<String>,
}

impl View for Command {
    type V = CommandView;

    open spec fn view(&self) -> CommandView {
        CommandView { target: self.target@, method: self.method@, args: self.args.deep_view() }
    }
}

/// The index of the first occurrence of `c` in `s`, or -1.
pub open spec fn spec_find(s: Seq<char>, c: char) -> int
    decreases s.len(),
{
    if s.len() == 0 {
        -1
    } else if s[0] == c {
        0
    } else {
        let r = spec_find(s.drop_first(), c);
        if r == -1 {
            -1
        } else {
            r + 1
        }
    }
}

/// `spec_find` returns -1 or the first index holding `c`.
pub proof fn lemma_find_bounds(s: Seq<char>, c: char)
    ensures
        spec_find(s, c) == -1 ==> forall|j: int| 0 <= j < s.len() ==> s[j] != c,
        spec_find(s, c) != -1 ==> 0 <= spec_find(s, c) < s.len() && s[spec_find(s, c)] == c
            && forall|j: int| 0 <= j < spec_find(s, c) ==> s[j] != c,
    decreases s.len(),
{
    if s.len() == 0 {
    } else if s[0] == c {
    } else {
        lemma_find_bounds(s.drop_first(), c);
        assert(forall|j: int| 0 < j < s.len() ==> s[j] == s.drop_first()[j - 1]);
    }
}

/// The first index holding `c` is what `spec_find` returns.
proof fn lemma_find_at(s: Seq<char>, c: char, i: int)
    requires
        0 <= i < s.len(),
        s[i] == c,
        forall|j: int| 0 <= j < i ==> s[j] != c,
    ensures
        spec_find(s, c) == i,
    decreases i,
{
    if i == 0 {
    } else {
        assert(forall|j: int| 0 <= j < i - 1 ==> s.drop_first()[j] == s[j + 1]);
        lemma_find_at(s.drop_first(), c, i - 1);
    }
}

/// When no index holds `c`, `spec_find` returns -1.
proof fn lemma_find_absent(s: Seq<char>, c: char)
    requires
        forall|j: int| 0 <= j < s.len() ==> s[j] != c,
    ensures
        spec_find(s, c) == -1,
    decreases s.len(),
{
    if s.len() == 0 {
    } else {
        assert(forall|j: int| 0 <= j < s.drop_first().len() ==> s.drop_first()[j] == s[j + 1]);
        lemma_find_absent(s.drop_first(), c);
    }
}

/// The segments of `s` between occurrences of `sep`, in order, empty
/// segments kept.
pub open spec fn spec_split(s: Seq<char>, sep: char) -> Seq<Seq<char>>
    decreases s.len(),
{
    let i = spec_find(s, sep);
    if i < 0 || i >= s.len() {
        seq![s]
    } else {
        seq![s.take(i)] + spec_split(s.skip(i + 1), sep)
    }
}

/// What parsing a command string yields: the target before the first `:`
/// (nonempty, and holding no `?`), the method after it, and the `&`-split
/// argument segments after an optional `?`.  An empty query contributes no
/// arguments.
pub open spec fn spec_parse_command(s: Seq<char>) -> Option<CommandView> {
    let ci = spec_find(s, ':');
    let qi = spec_find(s, '?');
    if ci <= 0 || (qi != -1 && qi < ci) {
        None
    } else {
        let rest = s.skip(ci + 1);
        let qr = spec_find(rest, '?');
        if qr == -1 {
            Some(CommandView { target: s.take(ci), method: rest, args: Seq::empty() })
        } else {
            let query = rest.skip(qr + 1);
            Some(
                CommandView {
                    target: s.take(ci),
                    method: rest.take(qr),
                    args: if query.len() == 0 {
                        Seq::empty()
                    } else {
                        spec_split(query, '&')
                    },
                },
            )
        }
    }
}

/// The index of the first occurrence of `c`, scanning left to right.
fn find_char(s: &str, c: char) -> (r: Option<usize>)
    ensures
        match r {
            Some(i) => spec_find(s@, c) == i,
            None => spec_find(s@, c) == -1,
        },
{
    let n = s.unicode_len();
    let mut i: usize = 0;
    while i < n
        invariant
            0 <= i <= n,
            n == s@.len(),
            forall|j: int| 0 <= j < i ==> s@[j] != c,
        decreases n - i,
    {
        if s.get_char(i) == c {
            proof {
                lemma_find_at(s@, c, i as int);
            }
            return Some(i);
        }
        i = i + 1;
    }
    proof {
        lemma_find_absent(s@, c);
    }
    None
}

/// Compare two strings character by character.
pub fn str_eq(a: &str, b: &str) -> (r: bool)
    ensures
        r == (a@ == b@),
{
    let n = a.unicode_len();
    let m = b.unicode_len();
    if n != m {
        return false;
    }
    let mut i: usize = 0;
    while i < n
        invariant
            0 <= i <= n,
            n == a@.len(),
            n == b@.len(),
            forall|j: int| 0 <= j < i ==> a@[j] == b@[j],
        decreases n - i,
    {
        if a.get_char(i) != b.get_char(i) {
            return false;
        }
        i = i + 1;
    }
    proof {
        assert(a@ =~= b@);
    }
    true
}

/// Split `s` at every occurrence of `sep`, keeping empty segments.
fn split_char(s: &str, sep: char) -> (r: Vec<String>)
    ensures
        r.deep_view() == spec_split(s@, sep),
{
    let mut out: Vec<String> = Vec::new();
    let mut cur: &str = s;
    let ghost s0 = s@;
    loop
        invariant
            s0 == s@,
            spec_split(s0, sep) == out.deep_view() + spec_split(cur@, sep),
        ensures
            out.deep_view() == spec_split(s0, sep),
        decreases cur@.len(),
    {
        let n = cur.unicode_len();
        match find_char(cur, sep) {
            None => {
                proof {
                    lemma_find_bounds(cur@, sep);
                }
                let ghost prev = out.deep_view();
                out.push(cur.to_owned());
                proof {
                    assert(spec_split(cur@, sep) =~= seq![cur@]);
                    assert(out.deep_view() =~= prev.push(cur@));
                    assert(prev.push(cur@) =~= prev + seq![cur@]);
                    assert(out.deep_view() =~= spec_split(s0, sep));
                }
                return out;
            },
            Some(i) => {
                proof {
                    lemma_find_bounds(cur@, sep);
                }
                let ghost prev = out.deep_view();
                let piece = cur.substring_char(0, i);
                out.push(piece.to_owned());
                let next = cur.substring_char(i + 1, n);
                proof {
                    assert(piece@ =~= cur@.take(i as int));
                    assert(next@ =~= cur@.skip(i as int + 1));
                    assert(out.deep_view() =~= prev.push(cur@.take(i as int)));
                    assert(prev + (seq![cur@.take(i as int)] + spec_split(next@, sep))
                        =~= prev.push(cur@.take(i as int)) + spec_split(next@, sep));
                }
                cur = next;
            },
        }
    }
}

/// Parse a routing command written `target:method?arg&arg`.  It succeeds
/// exactly on the strings the grammar admits; everything else comes back as
/// `ErrorParsingClientCommand` carrying the rejected string.
pub fn parse_command(s: &str) -> (r: Result<Command, WSError>)
    ensures
        match r {
            Ok(c) => spec_parse_command(s@) == Some(c@),
            Err(e) => spec_parse_command(s@) is None && (e matches
            WSError::ErrorParsingClientCommand(w) && w@ == s@),
        },
{
    let n = s.unicode_len();
    let ci_opt = find_char(s, ':');
    let qi_opt = find_char(s, '?');
    proof {
        lemma_find_bounds(s@, ':');
        lemma_find_bounds(s@, '?');
    }
    let ci = match ci_opt {
        Some(i) => i,
        None => {
            return Err(WSError::ErrorParsingClientCommand(s.to_owned()));
        },
    };
    if ci == 0 {
        return Err(WSError::ErrorParsingClientCommand(s.to_owned()));
    }
    if let Some(qi) = qi_opt {
        if qi < ci {
            return Err(WSError::ErrorParsingClientCommand(s.to_owned()));
        }
    }
    let target = s.substring_char(0, ci).to_owned();
    let rest = s.substring_char(ci + 1, n);
    proof {
        assert(target@ =~= s@.take(ci as int));
        assert(rest@ =~= s@.skip(ci as int + 1));
    }
    let rest_len = rest.unicode_len();
    match find_char(rest, '?') {
        None => {
            let c = Command { target, method: rest.to_owned(), args: Vec::new() };
            proof {
                assert(c@ =~~= spec_parse_command(s@).unwrap());
            }
            Ok(c)
        },
        Some(qr) => {
            proof {
                lemma_find_bounds(rest@, '?');
            }
            let method = rest.substring_char(0, qr).to_owned();
            let query = rest.substring_char(qr + 1, rest_len);
            proof {
                assert(method@ =~= rest@.take(qr as int));
                assert(query@ =~= rest@.skip(qr as int + 1));
            }
            let c = if query.unicode_len() == 0 {
                Command { target, method, args: Vec::new() }
            } else {
                Command { target, method, args: split_char(query, '&') }
            };
            proof {
                assert(c@ =~~= spec_parse_command(s@).unwrap());
            }
            Ok(c)
        },
    }
}

} // verus!
