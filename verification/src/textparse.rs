//! Small text helpers for the serialized state format: finding
//! separators, trimming, and splitting into whitespace tokens.

use vstd::prelude::*;
use vstd::string::StrSliceExecFns;

verus! {

/// The index of the first occurrence of `ch`, or -1.
pub open spec fn first_idx(s: Seq<char>, ch: char) -> int
    decreases s.len(),
{
    if s.len() == 0 {
        -1
    } else if s[0] == ch {
        0
    } else {
        let r = first_idx(s.drop_first(), ch);
        if r < 0 {
            -1
        } else {
            r + 1
        }
    }
}

/// What `first_idx` finds: nothing only when the character is absent,
/// else its first position.
pub proof fn lemma_first_idx(s: Seq<char>, ch: char)
    ensures
        first_idx(s, ch) < 0 ==> forall|j: int| 0 <= j < s.len() ==> s[j] != ch,
        first_idx(s, ch) >= 0 ==> 0 <= first_idx(s, ch) < s.len() && s[first_idx(s, ch)] == ch
            && (forall|j: int| 0 <= j < first_idx(s, ch) ==> s[j] != ch),
    decreases s.len(),
{
    if s.len() == 0 {
    } else if s[0] == ch {
    } else {
        let t = s.drop_first();
        lemma_first_idx(t, ch);
        assert(forall|j: int| 0 <= j < t.len() ==> t[j] == s[j + 1]);
        let r = first_idx(t, ch);
        if r >= 0 {
            assert(first_idx(s, ch) == r + 1);
            assert(s[r + 1] == t[r]);
            assert forall|j: int| 0 <= j < r + 1 implies s[j] != ch by {
                if j > 0 {
                    assert(t[j - 1] != ch);
                }
            }
        } else {
            assert forall|j: int| 0 <= j < s.len() implies s[j] != ch by {
                if j > 0 {
                    assert(t[j - 1] != ch);
                }
            }
        }
    }
}

/// A whitespace character of the format.
pub open spec fn spec_is_space(ch: char) -> bool {
    ch == ' ' || ch == '\t' || ch == '\n' || ch == '\r'
}

/// The index of the first whitespace character, or -1.
pub open spec fn first_space(s: Seq<char>) -> int
    decreases s.len(),
{
    if s.len() == 0 {
        -1
    } else if spec_is_space(s[0]) {
        0
    } else {
        let r = first_space(s.drop_first());
        if r < 0 {
            -1
        } else {
            r + 1
        }
    }
}

/// What `first_space` finds.
pub proof fn lemma_first_space(s: Seq<char>)
    ensures
        first_space(s) < 0 ==> forall|j: int| 0 <= j < s.len() ==> !spec_is_space(s[j]),
        first_space(s) >= 0 ==> 0 <= first_space(s) < s.len() && spec_is_space(s[first_space(s)])
            && (forall|j: int| 0 <= j < first_space(s) ==> !spec_is_space(s[j])),
    decreases s.len(),
{
    if s.len() == 0 {
    } else if spec_is_space(s[0]) {
    } else {
        let t = s.drop_first();
        lemma_first_space(t);
        assert(forall|j: int| 0 <= j < t.len() ==> t[j] == s[j + 1]);
        let r = first_space(t);
        if r >= 0 {
            assert(first_space(s) == r + 1);
            assert(s[r + 1] == t[r]);
            assert forall|j: int| 0 <= j < r + 1 implies !spec_is_space(s[j]) by {
                if j > 0 {
                    assert(!spec_is_space(t[j - 1]));
                }
            }
        } else {
            assert forall|j: int| 0 <= j < s.len() implies !spec_is_space(s[j]) by {
                if j > 0 {
                    assert(!spec_is_space(t[j - 1]));
                }
            }
        }
    }
}

/// The string without leading whitespace.
pub open spec fn spec_trim_start(s: Seq<char>) -> Seq<char>
    decreases s.len(),
{
    if s.len() > 0 && spec_is_space(s[0]) {
        spec_trim_start(s.drop_first())
    } else {
        s
    }
}

/// The string without trailing whitespace.
pub open spec fn spec_trim_end(s: Seq<char>) -> Seq<char>
    decreases s.len(),
{
    if s.len() > 0 && spec_is_space(s.last()) {
        spec_trim_end(s.drop_last())
    } else {
        s
    }
}

/// The string without leading or trailing whitespace.
pub open spec fn spec_trim(s: Seq<char>) -> Seq<char> {
    spec_trim_end(spec_trim_start(s))
}

/// The whitespace-separated tokens of a string, empties dropped.
pub open spec fn spec_tokens(s: Seq<char>) -> Seq<Seq<char>>
    decreases s.len(),
{
    if s.len() == 0 {
        Seq::<Seq<char>>::empty()
    } else if spec_is_space(s[0]) {
        spec_tokens(s.drop_first())
    } else {
        let e = first_space(s);
        if 0 <= e < s.len() {
            seq![s.subrange(0, e)] + spec_tokens(s.subrange(e + 1, s.len() as int))
        } else {
            seq![s]
        }
    }
}

/// The first occurrence of `ch`, matching `first_idx`.
pub fn find_char(s: &str, ch: char) -> (r: Option<usize>)
    ensures
        match r {
            Some(i) => i == first_idx(s@, ch),
            None => first_idx(s@, ch) < 0,
        },
{
    let n = s.unicode_len();
    let mut i: usize = 0;
    #[verifier::loop_isolation(false)]
    while i < n
        invariant
            i <= s@.len(),
            forall|j: int| 0 <= j < i ==> s@[j] != ch,
        decreases s@.len() - i,
    {
        if s.get_char(i) == ch {
            proof {
                lemma_first_idx(s@, ch);
            }
            return Some(i);
        }
        i += 1;
    }
    proof {
        lemma_first_idx(s@, ch);
    }
    None
}

/// Whether a character is whitespace of the format.
pub fn is_space_char(ch: char) -> (r: bool)
    ensures
        r == spec_is_space(ch),
{
    ch == ' ' || ch == '\t' || ch == '\n' || ch == '\r'
}

/// The first whitespace position, matching `first_space`.
pub fn find_space(s: &str) -> (r: Option<usize>)
    ensures
        match r {
            Some(i) => i == first_space(s@),
            None => first_space(s@) < 0,
        },
{
    let n = s.unicode_len();
    let mut i: usize = 0;
    #[verifier::loop_isolation(false)]
    while i < n
        invariant
            i <= s@.len(),
            forall|j: int| 0 <= j < i ==> !spec_is_space(s@[j]),
        decreases s@.len() - i,
    {
        if is_space_char(s.get_char(i)) {
            proof {
                lemma_first_space(s@);
            }
            return Some(i);
        }
        i += 1;
    }
    proof {
        lemma_first_space(s@);
    }
    None
}

/// Trims leading and trailing whitespace.
pub fn trim_str(s: &str) -> (r: String)
    ensures
        r@ == spec_trim(s@),
{
    let n = s.unicode_len();
    proof {
        assert(s@.subrange(0, s@.len() as int) =~= s@);
    }
    let mut a: usize = 0;
    #[verifier::loop_isolation(false)]
    while a < n && is_space_char(s.get_char(a))
        invariant
            a <= s@.len(),
            spec_trim_start(s@) == spec_trim_start(s@.subrange(a as int, s@.len() as int)),
        decreases s@.len() - a,
    {
        proof {
            let t = s@.subrange(a as int, s@.len() as int);
            assert(t.drop_first() =~= s@.subrange(a + 1, s@.len() as int));
        }
        a += 1;
    }
    proof {
        let t = s@.subrange(a as int, s@.len() as int);
        assert(spec_trim_start(s@) == t);
    }
    let mut b: usize = n;
    proof {
        assert(s@.subrange(a as int, b as int) =~= s@.subrange(a as int, s@.len() as int));
    }
    #[verifier::loop_isolation(false)]
    while b > a && is_space_char(s.get_char(b - 1))
        invariant
            a <= b <= s@.len(),
            spec_trim_end(s@.subrange(a as int, s@.len() as int)) == spec_trim_end(
                s@.subrange(a as int, b as int),
            ),
        decreases b,
    {
        proof {
            let t = s@.subrange(a as int, b as int);
            assert(t.last() == s@[b - 1]);
            assert(t.drop_last() =~= s@.subrange(a as int, b - 1));
        }
        b -= 1;
    }
    proof {
        let t = s@.subrange(a as int, b as int);
        if b > a {
            assert(t.last() == s@[b - 1]);
        }
        assert(spec_trim_end(t) == t);
    }
    String::from_str(s.substring_char(a, b))
}

/// Splits on whitespace, dropping empty tokens.
pub fn tokens_of(s: &str) -> (r: Vec<String>)
    ensures
        r@.map_values(|t: String| t@) == spec_tokens(s@),
    decreases s@.len(),
{
    let n = s.unicode_len();
    if n == 0 {
        let r: Vec<String> = Vec::new();
        proof {
            assert(r@.map_values(|t: String| t@) =~= spec_tokens(s@));
        }
        return r;
    }
    if is_space_char(s.get_char(0)) {
        let rest = s.substring_char(1, n);
        proof {
            assert(rest@ =~= s@.drop_first());
        }
        return tokens_of(rest);
    }
    match find_space(s) {
        None => {
            let mut r: Vec<String> = Vec::new();
            r.push(String::from_str(s));
            proof {
                assert(r@.map_values(|t: String| t@) =~= spec_tokens(s@));
            }
            r
        },
        Some(e) => {
            proof {
                lemma_first_space(s@);
            }
            let mut r: Vec<String> = Vec::new();
            r.push(String::from_str(s.substring_char(0, e)));
            let mut rest = tokens_of(s.substring_char(e + 1, n));
            r.append(&mut rest);
            proof {
                assert(r@.map_values(|t: String| t@) =~= spec_tokens(s@));
            }
            r
        },
    }
}

/// Whether two strings hold the same characters.
pub fn str_eq(a: &str, b: &str) -> (r: bool)
    ensures
        r == (a@ == b@),
{
    let na = a.unicode_len();
    let nb = b.unicode_len();
    if na != nb {
        return false;
    }
    let mut i: usize = 0;
    #[verifier::loop_isolation(false)]
    while i < na
        invariant
            i <= na,
            forall|j: int| 0 <= j < i ==> a@[j] == b@[j],
        decreases na - i,
    {
        if a.get_char(i) != b.get_char(i) {
            return false;
        }
        i += 1;
    }
    proof {
        assert(a@ =~= b@);
    }
    true
}

} // verus!
