//! The character set: the distinct characters of a text in code-point order,
//! with the space always present and always first.

use vstd::prelude::*;

verus! {

/// Every element is below the next one.
pub open spec fn strictly_increasing(s: Seq<char>) -> bool {
    forall|i: int, j: int| 0 <= i < j < s.len() ==> #[trigger] s[i] < #[trigger] s[j]
}

/// The text that stands in where no character file is given: the printable
/// ASCII characters from the space to the tilde.
pub open spec fn default_text() -> Seq<char> {
    Seq::new(95, |i: int| ((i + 32) as u8) as char)
}

/// `list` is the character list of `text`: the space, then every other
/// character of the text once, in increasing order.
pub open spec fn is_character_list(list: Seq<char>, text: Seq<char>) -> bool {
    &&& list.len() >= 1
    &&& list[0] == ' '
    &&& strictly_increasing(list.skip(1))
    &&& forall|i: int| 1 <= i < list.len() ==> list[i] != ' '
    &&& forall|c: char| list.contains(c) <==> c == ' ' || text.contains(c)
}

/// Two increasing sequences with the same elements are the same sequence.
pub proof fn lemma_increasing_unique(a: Seq<char>, b: Seq<char>)
    requires
        strictly_increasing(a),
        strictly_increasing(b),
        forall|c: char| a.contains(c) <==> b.contains(c),
    ensures
        a == b,
    decreases a.len(),
{
    if a.len() == 0 {
        if b.len() > 0 {
            assert(b.contains(b[0]));
        }
        assert(a =~= b);
    } else {
        assert(a.contains(a[0]));
        let k = choose|k: int| 0 <= k < b.len() && b[k] == a[0];
        assert(b.contains(b[0]));
        let m = choose|m: int| 0 <= m < a.len() && a[m] == b[0];
        assert(a[0] == b[0]) by {
            if m > 0 {
                assert(a[0] < a[m]);
            }
            if k > 0 {
                assert(b[0] < b[k]);
            }
        }
        let ta = a.skip(1);
        let tb = b.skip(1);
        assert forall|c: char| ta.contains(c) <==> tb.contains(c) by {
            if ta.contains(c) {
                let i = choose|i: int| 0 <= i < ta.len() && ta[i] == c;
                assert(a[i + 1] == c);
                assert(a[0] < a[i + 1]);
                assert(a.contains(c));
                let j = choose|j: int| 0 <= j < b.len() && b[j] == c;
                assert(j > 0);
                assert(tb[j - 1] == c);
            }
            if tb.contains(c) {
                let i = choose|i: int| 0 <= i < tb.len() && tb[i] == c;
                assert(b[i + 1] == c);
                assert(b[0] < b[i + 1]);
                assert(b.contains(c));
                let j = choose|j: int| 0 <= j < a.len() && a[j] == c;
                assert(j > 0);
                assert(ta[j - 1] == c);
            }
        }
        assert(strictly_increasing(ta)) by {
            assert forall|i: int, j: int| 0 <= i < j < ta.len() implies #[trigger] ta[i] < #[trigger] ta[j] by {
                assert(a[i + 1] < a[j + 1]);
            }
        }
        assert(strictly_increasing(tb)) by {
            assert forall|i: int, j: int| 0 <= i < j < tb.len() implies #[trigger] tb[i] < #[trigger] tb[j] by {
                assert(b[i + 1] < b[j + 1]);
            }
        }
        lemma_increasing_unique(ta, tb);
        assert(a =~= b) by {
            assert forall|i: int| 0 <= i < a.len() implies a[i] == b[i] by {
                if i > 0 {
                    assert(ta[i - 1] == tb[i - 1]);
                }
            }
            assert(a.len() == ta.len() + 1);
            assert(b.len() == tb.len() + 1);
        }
    }
}

/// A text has one character list: whatever is a character list of a text
/// is the same list.
pub proof fn lemma_character_list_unique(a: Seq<char>, b: Seq<char>, text: Seq<char>)
    requires
        is_character_list(a, text),
        is_character_list(b, text),
    ensures
        a == b,
{
    let ta = a.skip(1);
    let tb = b.skip(1);
    assert forall|c: char| ta.contains(c) <==> tb.contains(c) by {
        if ta.contains(c) {
            let i = choose|i: int| 0 <= i < ta.len() && ta[i] == c;
            assert(a[i + 1] == c);
            assert(a.contains(c));
            assert(b.contains(c));
            let j = choose|j: int| 0 <= j < b.len() && b[j] == c;
            assert(j > 0);
            assert(tb[j - 1] == c);
        }
        if tb.contains(c) {
            let i = choose|i: int| 0 <= i < tb.len() && tb[i] == c;
            assert(b[i + 1] == c);
            assert(b.contains(c));
            assert(a.contains(c));
            let j = choose|j: int| 0 <= j < a.len() && a[j] == c;
            assert(j > 0);
            assert(ta[j - 1] == c);
        }
    }
    lemma_increasing_unique(ta, tb);
    assert(a =~= b) by {
        assert forall|i: int| 0 <= i < a.len() implies a[i] == b[i] by {
            if i > 0 {
                assert(ta[i - 1] == tb[i - 1]);
            }
        }
        assert(a.len() == ta.len() + 1);
        assert(b.len() == tb.len() + 1);
    }
}

/// Puts `c` into a sorted list without duplicates, unless it is there.
fn insert_sorted(list: &mut Vec<char>, c: char)
    requires
        strictly_increasing(old(list)@),
    ensures
        strictly_increasing(final(list)@),
        forall|d: char| final(list)@.contains(d) <==> d == c || old(list)@.contains(d),
{
    let n: usize = list.len();
    let mut lo: usize = 0;
    let mut hi: usize = n;
    while lo < hi
        invariant
            n == list@.len(),
            list@ == old(list)@,
            strictly_increasing(list@),
            lo <= hi <= n,
            forall|j: int| 0 <= j < lo ==> #[trigger] list@[j] < c,
            forall|j: int| hi <= j < n ==> c <= #[trigger] list@[j],
        decreases hi - lo,
    {
        let mid: usize = lo + (hi - lo) / 2;
        if list[mid] < c {
            lo = mid + 1;
        } else {
            hi = mid;
        }
    }
    let ghost before = list@;
    if lo < n && list[lo] == c {
        assert(before.contains(c));
    } else {
        list.insert(lo, c);
        proof {
            let after = list@;
            assert(after == before.insert(lo as int, c));
            assert forall|i: int, j: int| 0 <= i < j < after.len() implies #[trigger] after[i]
                < #[trigger] after[j] by {
                if j < lo {
                    assert(after[i] == before[i] && after[j] == before[j]);
                } else if j == lo {
                    assert(after[i] == before[i]);
                } else if i < lo {
                    assert(after[i] == before[i] && after[j] == before[j - 1]);
                } else if i == lo {
                    assert(after[j] == before[j - 1]);
                } else {
                    assert(after[i] == before[i - 1] && after[j] == before[j - 1]);
                }
            }
            assert forall|d: char| after.contains(d) <==> d == c || before.contains(d) by {
                if after.contains(d) {
                    let k = choose|k: int| 0 <= k < after.len() && after[k] == d;
                    if k < lo {
                        assert(before[k] == d);
                    } else if k > lo {
                        assert(before[k - 1] == d);
                    }
                }
                if d == c {
                    assert(after[lo as int] == d);
                }
                if before.contains(d) {
                    let k = choose|k: int| 0 <= k < before.len() && before[k] == d;
                    if k < lo {
                        assert(after[k] == d);
                    } else {
                        assert(after[k + 1] == d);
                    }
                }
            }
        }
    }
}

/// The character list of a sequence of characters.
fn character_list(text: &Vec<char>) -> (list: Vec<char>)
    ensures
        is_character_list(list@, text@),
{
    let mut unique: Vec<char> = Vec::new();
    let n: usize = text.len();
    let mut i: usize = 0;
    while i < n
        invariant
            n == text@.len(),
            i <= n,
            strictly_increasing(unique@),
            forall|j: int| 0 <= j < unique@.len() ==> unique@[j] != ' ',
            forall|c: char|
                unique@.contains(c) <==> c != ' ' && exists|k: int| 0 <= k < i && text@[k] == c,
        decreases n - i,
    {
        let c: char = text[i];
        if c != ' ' {
            let ghost before = unique@;
            insert_sorted(&mut unique, c);
            proof {
                assert forall|j: int| 0 <= j < unique@.len() implies unique@[j] != ' ' by {
                    assert(unique@.contains(unique@[j]));
                    if unique@[j] != c {
                        assert(before.contains(unique@[j]));
                    }
                }
            }
        }
        i += 1;
    }
    let ghost sorted = unique@;
    unique.insert(0, ' ');
    proof {
        let list = unique@;
        assert(list.skip(1) =~= sorted);
        assert forall|c: char| list.contains(c) <==> c == ' ' || text@.contains(c) by {
            if list.contains(c) {
                let k = choose|k: int| 0 <= k < list.len() && list[k] == c;
                if k > 0 {
                    assert(sorted[k - 1] == c);
                    assert(sorted.contains(c));
                }
            }
            if c == ' ' {
                assert(list[0] == c);
            } else if text@.contains(c) {
                let k = choose|k: int| 0 <= k < text@.len() && text@[k] == c;
                assert(sorted.contains(c));
                let m = choose|m: int| 0 <= m < sorted.len() && sorted[m] == c;
                assert(list[m + 1] == c);
            }
        }
    }
    unique
}

/// The characters of the default text.
fn default_characters() -> (text: Vec<char>)
    ensures
        text@ == default_text(),
{
    let mut text: Vec<char> = Vec::new();
    let mut code: u8 = 32;
    while code < 127
        invariant
            32 <= code <= 127,
            text@.len() == code - 32,
            forall|i: int| 0 <= i < text@.len() ==> text@[i] == ((i + 32) as u8) as char,
        decreases 127 - code,
    {
        text.push(code as char);
        code += 1;
    }
    assert(text@ =~= default_text());
    text
}

/// The characters of a text, in order.
fn characters_of(content: &str) -> (text: Vec<char>)
    ensures
        text@ == content@,
{
    let mut text: Vec<char> = Vec::new();
    for c in it: content.chars()
        invariant
            it.seq() == content@,
            text@ == content@.take(it.index() as int),
    {
        text.push(c);
    }
    text
}

/// Derives the character set from the text of the character file, or from
/// the default text where there is no such file (`None`).
///
/// The result holds the space first and then every other character of the
/// text exactly once, in increasing order of code points.
pub fn load_characters(content: Option<&str>) -> (chars: Vec<char>)
    ensures
        is_character_list(
            chars@,
            match content {
                Some(text) => text@,
                None => default_text(),
            },
        ),
{
    let text: Vec<char> = match content {
        Some(text) => characters_of(text),
        None => default_characters(),
    };
    character_list(&text)
}

} // verus!
