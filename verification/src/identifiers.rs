//! Identifier rewriting: escaping a fully qualified type path into a single
//! valid identifier, flattening a type path into a snake-case id, and
//! substituting the host-crate import prefix into definition strings.

use vstd::prelude::*;
use vstd::string::StrSliceExecFns;
use vstd::string::StringExecFns;

verus! {

/// The escaped form of one character of a type path: punctuation that cannot
/// appear in an identifier becomes an upper-case four-letter code.
pub open spec fn escape_char(c: char) -> Seq<char> {
    if c == '(' {
        "LPAR"@
    } else if c == ')' {
        "RPAR"@
    } else if c == '<' {
        "LABR"@
    } else if c == '>' {
        "RABR"@
    } else if c == ',' {
        "COMM"@
    } else if c == '.' {
        "PERI"@
    } else if c == '[' {
        "LSQB"@
    } else if c == ']' {
        "RSQB"@
    } else if c == '/' {
        "FSLA"@
    } else if c == '\\' {
        "BSLA"@
    } else if c == '#' {
        "HASH"@
    } else if c == '-' {
        "HYPH"@
    } else {
        seq![c]
    }
}

/// The escaped form of a whole type path: each `::` becomes `COCO`, every
/// other character is escaped on its own, scanning left to right.
pub open spec fn escape_seq(s: Seq<char>) -> Seq<char>
    decreases s.len(),
{
    if s.len() == 0 {
        Seq::<char>::empty()
    } else if s.len() >= 2 && s[0] == ':' && s[1] == ':' {
        "COCO"@ + escape_seq(s.skip(2))
    } else {
        escape_char(s[0]) + escape_seq(s.skip(1))
    }
}

/// The snake-case form of one character of a type path.
pub open spec fn snake_char(c: char) -> char {
    if c == '/' || c == '\\' || c == '>' || c == '<' || c == '.' {
        '_'
    } else {
        c
    }
}

/// The snake-case form of a whole type path: each `::` and each path
/// separator character becomes one underscore, scanning left to right.
pub open spec fn snake_seq(s: Seq<char>) -> Seq<char>
    decreases s.len(),
{
    if s.len() == 0 {
        Seq::<char>::empty()
    } else if s.len() >= 2 && s[0] == ':' && s[1] == ':' {
        seq!['_'] + snake_seq(s.skip(2))
    } else {
        seq![snake_char(s[0])] + snake_seq(s.skip(1))
    }
}

/// Left-to-right, non-overlapping replacement of `pat` by `rep` in `s`.
pub open spec fn replace_seq(s: Seq<char>, pat: Seq<char>, rep: Seq<char>) -> Seq<char>
    decreases s.len(),
{
    if s.len() == 0 {
        Seq::<char>::empty()
    } else if 0 < pat.len() <= s.len() && s.take(pat.len() as int) == pat {
        rep + replace_seq(s.skip(pat.len() as int), pat, rep)
    } else {
        seq![s[0]] + replace_seq(s.skip(1), pat, rep)
    }
}

/// Appends the escaped form of one character.
fn push_escaped(r: &mut String, c: char)
    ensures
        final(r)@ == old(r)@ + escape_char(c),
{
    if c == '(' {
        r.append("LPAR");
    } else if c == ')' {
        r.append("RPAR");
    } else if c == '<' {
        r.append("LABR");
    } else if c == '>' {
        r.append("RABR");
    } else if c == ',' {
        r.append("COMM");
    } else if c == '.' {
        r.append("PERI");
    } else if c == '[' {
        r.append("LSQB");
    } else if c == ']' {
        r.append("RSQB");
    } else if c == '/' {
        r.append("FSLA");
    } else if c == '\\' {
        r.append("BSLA");
    } else if c == '#' {
        r.append("HASH");
    } else if c == '-' {
        r.append("HYPH");
    } else {
        r.push(c);
        assert(final(r)@ =~= old(r)@ + seq![c]);
    }
}

/// Escapes a fully qualified type path (for example `std::vec::Vec<T>`) into
/// a single identifier suitable as an enum variant name.
pub fn escape_identifier(input: &str) -> (r: String)
    ensures
        r@ == escape_seq(input@),
{
    let n = input.unicode_len();
    let mut r = String::new();
    let mut i: usize = 0;
    proof {
        assert(input@.skip(0) =~= input@);
        assert(r@ + escape_seq(input@) =~= escape_seq(input@));
    }
    while i < n
        invariant
            n == input@.len(),
            i <= n,
            r@ + escape_seq(input@.skip(i as int)) == escape_seq(input@),
        decreases n - i,
    {
        let ghost rest = input@.skip(i as int);
        assert(rest.len() == n - i);
        if i + 1 < n && input.get_char(i) == ':' && input.get_char(i + 1) == ':' {
            assert(rest[0] == input@[i as int] && rest[1] == input@[i as int + 1]);
            r.append("COCO");
            proof {
                assert(rest.skip(2) =~= input@.skip(i as int + 2));
                assert(escape_seq(rest) == "COCO"@ + escape_seq(input@.skip(i as int + 2)));
                assert(r@ + escape_seq(input@.skip(i as int + 2)) =~= escape_seq(input@));
            }
            i += 2;
        } else {
            let c = input.get_char(i);
            assert(rest[0] == c);
            assert(!(rest.len() >= 2 && rest[0] == ':' && rest[1] == ':')) by {
                if rest.len() >= 2 {
                    assert(rest[1] == input@[i as int + 1]);
                }
            }
            push_escaped(&mut r, c);
            proof {
                assert(rest.skip(1) =~= input@.skip(i as int + 1));
                assert(escape_seq(rest) == escape_char(c) + escape_seq(input@.skip(i as int + 1)));
                assert(r@ + escape_seq(input@.skip(i as int + 1)) =~= escape_seq(input@));
            }
            i += 1;
        }
    }
    proof {
        assert(input@.skip(n as int) =~= Seq::<char>::empty());
        assert(r@ =~= escape_seq(input@));
    }
    r
}

/// Flattens a fully qualified type path into a snake-case identifier:
/// `::`, `/`, `\`, `>`, `<` and `.` all become underscores.
pub fn snake_case_identifier(input: &str) -> (r: String)
    ensures
        r@ == snake_seq(input@),
{
    let n = input.unicode_len();
    let mut r = String::new();
    let mut i: usize = 0;
    proof {
        assert(input@.skip(0) =~= input@);
        assert(r@ + snake_seq(input@) =~= snake_seq(input@));
    }
    while i < n
        invariant
            n == input@.len(),
            i <= n,
            r@ + snake_seq(input@.skip(i as int)) == snake_seq(input@),
        decreases n - i,
    {
        let ghost rest = input@.skip(i as int);
        assert(rest.len() == n - i);
        if i + 1 < n && input.get_char(i) == ':' && input.get_char(i + 1) == ':' {
            assert(rest[0] == input@[i as int] && rest[1] == input@[i as int + 1]);
            r.push('_');
            proof {
                assert(rest.skip(2) =~= input@.skip(i as int + 2));
                assert(snake_seq(rest) == seq!['_'] + snake_seq(input@.skip(i as int + 2)));
                assert(r@ + snake_seq(input@.skip(i as int + 2)) =~= snake_seq(input@));
            }
            i += 2;
        } else {
            let c = input.get_char(i);
            assert(rest[0] == c);
            assert(!(rest.len() >= 2 && rest[0] == ':' && rest[1] == ':')) by {
                if rest.len() >= 2 {
                    assert(rest[1] == input@[i as int + 1]);
                }
            }
            let mapped = if c == '/' || c == '\\' || c == '>' || c == '<' || c == '.' {
                '_'
            } else {
                c
            };
            assert(mapped == snake_char(c));
            r.push(mapped);
            proof {
                assert(rest.skip(1) =~= input@.skip(i as int + 1));
                assert(snake_seq(rest) == seq![snake_char(c)] + snake_seq(input@.skip(i as int + 1)));
                assert(r@ + snake_seq(input@.skip(i as int + 1)) =~= snake_seq(input@));
            }
            i += 1;
        }
    }
    proof {
        assert(input@.skip(n as int) =~= Seq::<char>::empty());
        assert(r@ =~= snake_seq(input@));
    }
    r
}

/// True iff `pat` occurs in `s` starting at character position `i`.
fn starts_with_at(s: &str, i: usize, pat: &str) -> (r: bool)
    requires
        i <= s@.len(),
    ensures
        r == (i + pat@.len() <= s@.len() && s@.skip(i as int).take(pat@.len() as int) == pat@),
{
    let n = s.unicode_len();
    let m = pat.unicode_len();
    if m > n - i {
        return false;
    }
    let mut j: usize = 0;
    while j < m
        invariant
            n == s@.len(),
            m == pat@.len(),
            i + m <= n,
            j <= m,
            forall|k: int| 0 <= k < j ==> s@[i + k] == pat@[k],
        decreases m - j,
    {
        if s.get_char(i + j) != pat.get_char(j) {
            assert(s@.skip(i as int).take(m as int)[j as int] != pat@[j as int]);
            return false;
        }
        j += 1;
    }
    assert(s@.skip(i as int).take(m as int) =~= pat@);
    true
}

/// Left-to-right, non-overlapping replacement of every occurrence of `pat`
/// by `rep`.
pub fn replace_all(s: &str, pat: &str, rep: &str) -> (r: String)
    requires
        pat@.len() > 0,
    ensures
        r@ == replace_seq(s@, pat@, rep@),
{
    let n = s.unicode_len();
    let m = pat.unicode_len();
    let mut r = String::new();
    let mut i: usize = 0;
    proof {
        assert(s@.skip(0) =~= s@);
        assert(r@ + replace_seq(s@, pat@, rep@) =~= replace_seq(s@, pat@, rep@));
    }
    while i < n
        invariant
            n == s@.len(),
            m == pat@.len(),
            m > 0,
            i <= n,
            r@ + replace_seq(s@.skip(i as int), pat@, rep@) == replace_seq(s@, pat@, rep@),
        decreases n - i,
    {
        let ghost rest = s@.skip(i as int);
        assert(rest.len() == n - i);
        if starts_with_at(s, i, pat) {
            assert(rest.take(m as int) == pat@);
            r.append(rep);
            proof {
                assert(rest.skip(m as int) =~= s@.skip(i as int + m as int));
                assert(replace_seq(rest, pat@, rep@) == rep@ + replace_seq(
                    s@.skip(i as int + m as int),
                    pat@,
                    rep@,
                ));
                assert(r@ + replace_seq(s@.skip(i as int + m as int), pat@, rep@) =~= replace_seq(
                    s@,
                    pat@,
                    rep@,
                ));
            }
            i += m;
        } else {
            let c = s.get_char(i);
            assert(rest[0] == c);
            r.push(c);
            proof {
                assert(rest.skip(1) =~= s@.skip(i as int + 1));
                assert(replace_seq(rest, pat@, rep@) == seq![c] + replace_seq(
                    s@.skip(i as int + 1),
                    pat@,
                    rep@,
                ));
                assert(r@ + replace_seq(s@.skip(i as int + 1), pat@, rep@) =~= replace_seq(
                    s@,
                    pat@,
                    rep@,
                ));
            }
            i += 1;
        }
    }
    proof {
        assert(s@.skip(n as int) =~= Seq::<char>::empty());
        assert(r@ =~= replace_seq(s@, pat@, rep@));
    }
    r
}

} // verus!
