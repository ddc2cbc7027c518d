use vstd::prelude::*;

verus! {

/// The characters of an optional string.
pub open spec fn opt_string_view(o: Option<String>) -> Option<Seq<char>> {
    match o {
        Some(s) => Some(s@),
        None => None,
    }
}

/// `pat` occurs in `text` starting at position `i`.
pub open spec fn occurs_at(text: Seq<char>, pat: Seq<char>, i: int) -> bool {
    &&& 0 <= i
    &&& i + pat.len() <= text.len()
    &&& text.subrange(i, i + pat.len()) == pat
}

/// `pat` occurs in `text` as a contiguous run of characters.
pub open spec fn is_substring(pat: Seq<char>, text: Seq<char>) -> bool {
    exists|i: int| occurs_at(text, pat, i)
}

/// Where the path component that ends at `end` begins: just after the last
/// `'/'` before `end`, or 0 when there is none.
pub open spec fn component_start(p: Seq<char>, end: int) -> int
    decreases end,
{
    if end <= 0 {
        0
    } else if p[end - 1] == '/' {
        end
    } else {
        component_start(p, end - 1)
    }
}

#[via_fn]
proof fn final_component_within_decreases(p: Seq<char>, end: int) {
    if end > 0 && p[end - 1] != '/' {
        lemma_component_start_bounds(p, end - 1);
    }
}

/// The final component of the first `end` characters of a Unix path: trailing
/// separators and `.` components are skipped; a final `..`, or no component
/// at all, gives `None`.
pub open spec fn final_component_within(p: Seq<char>, end: int) -> Option<Seq<char>>
    decreases end,
    via final_component_within_decreases
{
    if end <= 0 {
        None
    } else if p[end - 1] == '/' {
        final_component_within(p, end - 1)
    } else {
        let start = component_start(p, end - 1);
        let name = p.subrange(start, end);
        if name == seq!['.'] {
            final_component_within(p, start)
        } else if name == seq!['.', '.'] {
            None
        } else {
            Some(name)
        }
    }
}

/// The final component of a Unix path, as `Path::file_name` reads it.
pub open spec fn final_component(p: Seq<char>) -> Option<Seq<char>> {
    final_component_within(p, p.len() as int)
}

pub proof fn lemma_component_start_bounds(p: Seq<char>, end: int)
    requires
        0 <= end,
    ensures
        0 <= component_start(p, end) <= end,
        forall|k: int| component_start(p, end) <= k < end ==> p[k] != '/',
        component_start(p, end) > 0 ==> p[component_start(p, end) - 1] == '/',
    decreases end,
{
    if end > 0 && p[end - 1] != '/' {
        lemma_component_start_bounds(p, end - 1);
    }
}

/// The characters of `s`, one element each.
pub fn chars_of(s: &str) -> (r: Vec<char>)
    ensures
        r@ == s@,
{
    let n = s.unicode_len();
    let mut r: Vec<char> = Vec::new();
    let mut i: usize = 0;
    while i < n
        invariant
            n == s@.len(),
            i <= n,
            r@ == s@.subrange(0, i as int),
        decreases n - i,
    {
        r.push(s.get_char(i));
        i = i + 1;
    }
    assert(r@ =~= s@);
    r
}

/// Whether `pat` occurs in `text` starting at position `i`.
fn occurs_at_exec(text: &Vec<char>, pat: &Vec<char>, i: usize) -> (r: bool)
    requires
        i + pat@.len() <= text@.len(),
    ensures
        r == occurs_at(text@, pat@, i as int),
{
    let tl = text.len();
    let mut j: usize = 0;
    while j < pat.len()
        invariant
            tl == text@.len(),
            i + pat@.len() <= text@.len(),
            j <= pat@.len(),
            forall|k: int| 0 <= k < j ==> text@[i + k] == pat@[k],
        decreases pat@.len() - j,
    {
        if text[i + j] != pat[j] {
            assert(text@.subrange(i as int, i + pat@.len())[j as int] != pat@[j as int]);
            return false;
        }
        j = j + 1;
    }
    assert(text@.subrange(i as int, i + pat@.len()) =~= pat@);
    true
}

/// Whether `pat` occurs in `text` as a contiguous run of characters
/// (case-sensitive). The empty pattern occurs in every text.
pub fn contains_str(text: &str, pat: &str) -> (r: bool)
    ensures
        r == is_substring(pat@, text@),
{
    let t = chars_of(text);
    let p = chars_of(pat);
    if p.len() == 0 {
        assert(t@.subrange(0, 0) =~= p@);
        assert(occurs_at(text@, pat@, 0));
        return true;
    }
    if p.len() > t.len() {
        return false;
    }
    let tlen = t.len();
    let last = tlen - p.len();
    let mut i: usize = 0;
    while i <= last
        invariant
            tlen == t@.len(),
            t@ == text@,
            p@ == pat@,
            p@.len() > 0,
            last == t@.len() - p@.len(),
            last < t@.len(),
            i <= last + 1,
            forall|k: int| 0 <= k < i ==> !occurs_at(t@, p@, k),
        decreases last + 1 - i,
    {
        if occurs_at_exec(&t, &p, i) {
            return true;
        }
        i = i + 1;
    }
    assert forall|k: int| !occurs_at(text@, pat@, k) by {
        if 0 <= k < i {
            assert(!occurs_at(t@, p@, k));
        }
    }
    false
}

/// The final component of the path `dir` (see `final_component`), or `None`
/// when it has none. A final component is never empty.
pub fn final_component_of(dir: &str) -> (r: Option<String>)
    ensures
        match r {
            Some(name) => final_component(dir@) == Some(name@) && name@.len() > 0,
            None => final_component(dir@) is None,
        },
{
    let p = chars_of(dir);
    let mut end: usize = p.len();
    while end > 0
        invariant
            p@ == dir@,
            end <= p@.len(),
            final_component_within(p@, end as int) == final_component(p@),
        decreases end,
    {
        if p[end - 1] == '/' {
            end = end - 1;
        } else {
            let mut start: usize = end - 1;
            while start > 0 && p[start - 1] != '/'
                invariant
                    0 < end <= p@.len(),
                    start < end,
                    component_start(p@, start as int) == component_start(p@, (end - 1) as int),
                decreases start,
            {
                start = start - 1;
            }
            proof {
                lemma_component_start_bounds(p@, (end - 1) as int);
            }
            assert(start as int == component_start(p@, (end - 1) as int));
            let len = end - start;
            if len == 1 && p[start] == '.' {
                assert(p@.subrange(start as int, end as int) =~= seq!['.']);
                end = start;
            } else if len == 2 && p[start] == '.' && p[start + 1] == '.' {
                assert(p@.subrange(start as int, end as int) =~= seq!['.', '.']);
                return None;
            } else {
                let ghost name = p@.subrange(start as int, end as int);
                assert(name != seq!['.']) by {
                    if name == seq!['.'] {
                        assert(name.len() == 1);
                        assert(name[0] == p@[start as int]);
                        assert(seq!['.'][0] == '.');
                    }
                }
                assert(name != seq!['.', '.']) by {
                    if name == seq!['.', '.'] {
                        assert(name.len() == 2);
                        assert(name[0] == p@[start as int]);
                        assert(name[1] == p@[start + 1]);
                        assert(seq!['.', '.'][0] == '.');
                        assert(seq!['.', '.'][1] == '.');
                    }
                }
                return Some(dir.substring_char(start, end).to_owned());
            }
        }
    }
    None
}

/// Relies on `String::push`: the character is appended at the end.
#[verifier::external_body]
pub(crate) fn push_char(s: &mut String, c: char)
    ensures
        final(s)@ == old(s)@.push(c),
{
    s.push(c)
}

/// Relies on `String::pop`: the last character is removed and returned;
/// an empty string stays empty and gives `None`.
#[verifier::external_body]
pub(crate) fn pop_char(s: &mut String) -> (r: Option<char>)
    ensures
        old(s)@.len() == 0 ==> r is None && final(s)@ == old(s)@,
        old(s)@.len() > 0 ==> r == Some(old(s)@.last()) && final(s)@ == old(s)@.drop_last(),
{
    s.pop()
}

} // verus!
