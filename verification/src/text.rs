//! Character-level text helpers: equality, trimming, joining and splitting,
//! each specified against a plain recursive definition over `Seq<char>`.

use vstd::prelude::*;
use vstd::string::StrSliceExecFns;
use vstd::string::StringExecFns;

verus! {

/// Compare two string slices by their character sequences.
pub fn str_eq(a: &str, b: &str) -> (r: bool)
    ensures
        r == (a@ == b@),
{
    let na = a.unicode_len();
    let nb = b.unicode_len();
    if na != nb {
        return false;
    }
    let mut i: usize = 0;
    while i < na
        invariant
            na == a@.len(),
            nb == b@.len(),
            na == nb,
            i <= na,
            forall|k: int| 0 <= k < i ==> a@[k] == b@[k],
        decreases na - i,
    {
        if a.get_char(i) != b.get_char(i) {
            return false;
        }
        i += 1;
    }
    proof {
        assert(a@ =~= b@);
    }
    true
}

/// Compare two optional strings by value.
pub fn opt_string_eq(a: &Option<String>, b: &Option<String>) -> (r: bool)
    ensures
        r == match (a, b) {
            (Some(x), Some(y)) => x@ == y@,
            (None, None) => true,
            _ => false,
        },
{
    match (a, b) {
        (Some(x), Some(y)) => x.eq(y),
        (None, None) => true,
        _ => false,
    }
}

/// Copy an optional string, preserving the value exactly.
pub fn clone_opt_string(o: &Option<String>) -> (r: Option<String>)
    ensures
        r == *o,
{
    match o {
        Some(s) => Some(s.clone()),
        None => None,
    }
}

/// The characters of a string slice as a vector.
pub fn str_to_chars(s: &str) -> (r: Vec<char>)
    ensures
        r@ == s@,
{
    let n = s.unicode_len();
    let mut r: Vec<char> = Vec::new();
    let mut i: usize = 0;
    while i < n
        invariant
            n == s@.len(),
            i <= n,
            r@ == s@.subrange(0, i as int),
        decreases n - i,
    {
        let c = s.get_char(i);
        r.push(c);
        proof {
            assert(r@ =~= s@.subrange(0, i + 1));
        }
        i += 1;
    }
    proof {
        assert(s@.subrange(0, n as int) =~= s@);
    }
    r
}

/// Builds the string holding exactly the given characters.
/// Relies on `String`'s character iterator collection from std.
#[verifier::external_body]
pub fn chars_to_string(v: &Vec<char>) -> (r: String)
    ensures
        r@ == v@,
{
    v.iter().collect()
}

/// The whitespace characters, as std's `char::is_whitespace` defines them.
pub open spec fn is_ws_char(c: char) -> bool {
    ||| (9 <= c as u32 <= 13)
    ||| c as u32 == 32
    ||| c as u32 == 0x85
    ||| c as u32 == 0xA0
    ||| c as u32 == 0x1680
    ||| (0x2000 <= c as u32 <= 0x200A)
    ||| c as u32 == 0x2028
    ||| c as u32 == 0x2029
    ||| c as u32 == 0x202F
    ||| c as u32 == 0x205F
    ||| c as u32 == 0x3000
}

pub fn is_ws(c: char) -> (r: bool)
    ensures
        r == is_ws_char(c),
{
    let u = c as u32;
    (9 <= u && u <= 13) || u == 32 || u == 0x85 || u == 0xA0 || u == 0x1680 || (0x2000 <= u && u
        <= 0x200A) || u == 0x2028 || u == 0x2029 || u == 0x202F || u == 0x205F || u == 0x3000
}

/// The sequence with its leading whitespace removed.
pub open spec fn spec_trim_start(s: Seq<char>) -> Seq<char>
    decreases s.len(),
{
    if s.len() > 0 && is_ws_char(s[0]) {
        spec_trim_start(s.skip(1))
    } else {
        s
    }
}

/// The sequence with its trailing whitespace removed.
pub open spec fn spec_trim_end(s: Seq<char>) -> Seq<char>
    decreases s.len(),
{
    if s.len() > 0 && is_ws_char(s.last()) {
        spec_trim_end(s.drop_last())
    } else {
        s
    }
}

/// The sequence with whitespace removed from both ends.
pub open spec fn spec_trim(s: Seq<char>) -> Seq<char> {
    spec_trim_end(spec_trim_start(s))
}

proof fn lemma_trim_start_is_subrange(s: Seq<char>, a: int)
    requires
        0 <= a <= s.len(),
        forall|k: int| 0 <= k < a ==> is_ws_char(s[k]),
        a < s.len() ==> !is_ws_char(s[a]),
    ensures
        spec_trim_start(s) == s.subrange(a, s.len() as int),
    decreases a,
{
    if a == 0 {
        assert(s.subrange(0, s.len() as int) =~= s);
    } else {
        assert(is_ws_char(s[0]));
        lemma_trim_start_is_subrange(s.skip(1), a - 1);
        assert(s.skip(1).subrange(a - 1, s.skip(1).len() as int) =~= s.subrange(
            a,
            s.len() as int,
        ));
    }
}

proof fn lemma_trim_end_is_subrange(s: Seq<char>, b: int)
    requires
        0 <= b <= s.len(),
        forall|k: int| b <= k < s.len() ==> is_ws_char(s[k]),
        b > 0 ==> !is_ws_char(s[b - 1]),
    ensures
        spec_trim_end(s) == s.subrange(0, b),
    decreases s.len() - b,
{
    if b == s.len() {
        if s.len() > 0 && is_ws_char(s.last()) {
            assert(false);
        }
        assert(s.subrange(0, s.len() as int) =~= s);
    } else {
        assert(is_ws_char(s.last()));
        lemma_trim_end_is_subrange(s.drop_last(), b);
        assert(s.drop_last().subrange(0, b) =~= s.subrange(0, b));
    }
}

/// Remove whitespace from both ends of a character vector.
pub fn trim_chars(s: &Vec<char>) -> (r: Vec<char>)
    ensures
        r@ == spec_trim(s@),
{
    let n = s.len();
    let mut a: usize = 0;
    while a < n && is_ws(s[a])
        invariant
            n == s@.len(),
            a <= n,
            forall|k: int| 0 <= k < a ==> is_ws_char(s@[k]),
        decreases n - a,
    {
        a += 1;
    }
    proof {
        lemma_trim_start_is_subrange(s@, a as int);
    }
    let mut b: usize = n;
    while b > a && is_ws(s[b - 1])
        invariant
            n == s@.len(),
            a <= b <= n,
            forall|k: int| b <= k < n ==> is_ws_char(s@[k]),
        decreases b,
    {
        b -= 1;
    }
    let ghost st = s@.subrange(a as int, n as int);
    proof {
        assert forall|k: int| (b - a) <= k < st.len() implies is_ws_char(st[k]) by {
            assert(st[k] == s@[k + a]);
        }
        if b > a {
            assert(st[b - a - 1] == s@[b as int - 1]);
        }
        lemma_trim_end_is_subrange(st, b - a);
    }
    let mut r: Vec<char> = Vec::new();
    let mut i: usize = a;
    while i < b
        invariant
            n == s@.len(),
            a <= i <= b <= n,
            r@ == s@.subrange(a as int, i as int),
        decreases b - i,
    {
        r.push(s[i]);
        proof {
            assert(r@ =~= s@.subrange(a as int, i + 1));
        }
        i += 1;
    }
    proof {
        assert(s@.subrange(a as int, b as int) =~= st.subrange(0, b - a));
    }
    r
}

/// Trim a string slice, as std's `str::trim` would.
pub fn trim(s: &str) -> (r: String)
    ensures
        r@ == spec_trim(s@),
{
    let chars = str_to_chars(s);
    let trimmed = trim_chars(&chars);
    chars_to_string(&trimmed)
}

/// `parts`, each trimmed, joined with a separating newline.
pub open spec fn spec_join_trimmed(parts: Seq<Seq<char>>) -> Seq<char>
    decreases parts.len(),
{
    if parts.len() == 0 {
        Seq::empty()
    } else if parts.len() == 1 {
        spec_trim(parts[0])
    } else {
        spec_join_trimmed(parts.drop_last()) + seq!['\n'] + spec_trim(parts.last())
    }
}

/// Trim every part and join them with newline separators: how the text
/// nodes of an element collapse into one comment body.
pub fn join_trimmed(parts: &Vec<String>) -> (r: Vec<char>)
    ensures
        r@ == spec_join_trimmed(parts.deep_view()),
{
    let mut r: Vec<char> = Vec::new();
    let mut i: usize = 0;
    proof {
        assert(parts.deep_view().take(0) =~= Seq::<Seq<char>>::empty());
    }
    while i < parts.len()
        invariant
            i <= parts@.len(),
            parts.deep_view().len() == parts@.len(),
            forall|k: int|
                0 <= k < parts@.len() ==> parts.deep_view()[k] == #[trigger] parts@[k]@,
            r@ == spec_join_trimmed(parts.deep_view().take(i as int)),
        decreases parts@.len() - i,
    {
        let part = str_to_chars(parts[i].as_str());
        let t = trim_chars(&part);
        if i > 0 {
            r.push('\n');
        }
        let mut j: usize = 0;
        let ghost mid = r@;
        while j < t.len()
            invariant
                j <= t@.len(),
                r@ == mid + t@.subrange(0, j as int),
            decreases t@.len() - j,
        {
            r.push(t[j]);
            proof {
                assert(r@ =~= mid + t@.subrange(0, j + 1));
            }
            j += 1;
        }
        proof {
            let dv = parts.deep_view();
            assert(t@.subrange(0, t@.len() as int) =~= t@);
            assert(dv.take(i + 1).drop_last() =~= dv.take(i as int));
            assert(dv.take(i + 1).last() == dv[i as int]);
            if i == 0 {
                assert(r@ =~= spec_join_trimmed(dv.take(1)));
            } else {
                assert(r@ =~= spec_join_trimmed(dv.take(i as int)) + seq!['\n'] + spec_trim(
                    dv[i as int],
                ));
            }
        }
        i += 1;
    }
    proof {
        assert(parts.deep_view().take(parts.deep_view().len() as int) =~= parts.deep_view());
    }
    r
}

/// All parts concatenated, untrimmed: how a heading's text nodes collapse
/// into one title before trimming.
pub open spec fn spec_concat(parts: Seq<Seq<char>>) -> Seq<char>
    decreases parts.len(),
{
    if parts.len() == 0 {
        Seq::empty()
    } else {
        spec_concat(parts.drop_last()) + parts.last()
    }
}

/// Concatenate all parts.
pub fn concat_parts(parts: &Vec<String>) -> (r: Vec<char>)
    ensures
        r@ == spec_concat(parts.deep_view()),
{
    let mut r: Vec<char> = Vec::new();
    let mut i: usize = 0;
    proof {
        assert(parts.deep_view().take(0) =~= Seq::<Seq<char>>::empty());
    }
    while i < parts.len()
        invariant
            i <= parts@.len(),
            parts.deep_view().len() == parts@.len(),
            forall|k: int|
                0 <= k < parts@.len() ==> parts.deep_view()[k] == #[trigger] parts@[k]@,
            r@ == spec_concat(parts.deep_view().take(i as int)),
        decreases parts@.len() - i,
    {
        let part = str_to_chars(parts[i].as_str());
        let mut j: usize = 0;
        let ghost mid = r@;
        while j < part.len()
            invariant
                j <= part@.len(),
                r@ == mid + part@.subrange(0, j as int),
            decreases part@.len() - j,
        {
            r.push(part[j]);
            proof {
                assert(r@ =~= mid + part@.subrange(0, j + 1));
            }
            j += 1;
        }
        proof {
            let dv = parts.deep_view();
            assert(part@.subrange(0, part@.len() as int) =~= part@);
            assert(dv.take(i + 1).drop_last() =~= dv.take(i as int));
            assert(dv.take(i + 1).last() == dv[i as int]);
            assert(r@ =~= spec_concat(dv.take(i as int)) + dv[i as int]);
        }
        i += 1;
    }
    proof {
        assert(parts.deep_view().take(parts.deep_view().len() as int) =~= parts.deep_view());
    }
    r
}

/// Split on a separator character; adjacent separators yield empty parts,
/// as std's `str::split` does with a `char` pattern.
pub open spec fn spec_split_acc(
    s: Seq<char>,
    sep: char,
    cur: Seq<char>,
    acc: Seq<Seq<char>>,
) -> Seq<Seq<char>>
    decreases s.len(),
{
    if s.len() == 0 {
        acc.push(cur)
    } else if s[0] == sep {
        spec_split_acc(s.skip(1), sep, Seq::empty(), acc.push(cur))
    } else {
        spec_split_acc(s.skip(1), sep, cur.push(s[0]), acc)
    }
}

pub open spec fn spec_split(s: Seq<char>, sep: char) -> Seq<Seq<char>> {
    spec_split_acc(s, sep, Seq::empty(), Seq::empty())
}

/// Split a character vector on a separator.
pub fn split_chars(s: &Vec<char>, sep: char) -> (r: Vec<Vec<char>>)
    ensures
        r.deep_view() == spec_split(s@, sep),
{
    let mut acc: Vec<Vec<char>> = Vec::new();
    let mut cur: Vec<char> = Vec::new();
    let mut i: usize = 0;
    proof {
        assert(acc.deep_view() =~= Seq::<Seq<char>>::empty());
        assert(s@.skip(0) =~= s@);
    }
    while i < s.len()
        invariant
            i <= s@.len(),
            spec_split_acc(s@.skip(i as int), sep, cur@, acc.deep_view()) == spec_split(s@, sep),
        decreases s@.len() - i,
    {
        let ghost prior_acc = acc.deep_view();
        let ghost prior_cur = cur@;
        proof {
            assert(s@.skip(i as int)[0] == s@[i as int]);
            assert(s@.skip(i as int).skip(1) =~= s@.skip(i + 1));
        }
        if s[i] == sep {
            let done = cur;
            acc.push(done);
            cur = Vec::new();
            proof {
                assert(acc.deep_view() =~~= prior_acc.push(prior_cur));
                assert(cur@ =~= Seq::<char>::empty());
            }
        } else {
            cur.push(s[i]);
        }
        i += 1;
    }
    proof {
        assert(s@.skip(s@.len() as int) =~= Seq::<char>::empty());
    }
    let ghost prior_acc = acc.deep_view();
    let last = cur;
    acc.push(last);
    proof {
        assert(acc.deep_view() =~~= prior_acc.push(last@));
    }
    acc
}

} // verus!
