use vstd::prelude::*;

verus! {

/// `n` blanks, the indentation the code generators write.
pub open spec fn spaces(n: nat) -> Seq<char>
    decreases n,
{
    if n == 0 {
        Seq::empty()
    } else {
        spaces((n - 1) as nat) + " "@
    }
}

/// The decimal digit of `d`, for `0 <= d < 10`.
pub open spec fn digit_text(d: nat) -> Seq<char> {
    if d == 0 {
        "0"@
    } else if d == 1 {
        "1"@
    } else if d == 2 {
        "2"@
    } else if d == 3 {
        "3"@
    } else if d == 4 {
        "4"@
    } else if d == 5 {
        "5"@
    } else if d == 6 {
        "6"@
    } else if d == 7 {
        "7"@
    } else if d == 8 {
        "8"@
    } else {
        "9"@
    }
}

/// The decimal numeral of `n`, without leading zeros.
pub open spec fn nat_text(n: nat) -> Seq<char>
    decreases n,
{
    if n < 10 {
        digit_text(n)
    } else {
        nat_text(n / 10) + digit_text(n % 10)
    }
}

/// The decimal numeral of `i`, with a leading `-` when it is negative.
pub open spec fn int_text(i: int) -> Seq<char> {
    if i < 0 {
        "-"@ + nat_text((-i) as nat)
    } else {
        nat_text(i as nat)
    }
}

/// A string of `n` blanks.
pub fn repeat_space(n: usize) -> (res: String)
    ensures
        res@ == spaces(n as nat),
{
    let mut text = String::new();
    let mut i: usize = 0;
    while i < n
        invariant
            i <= n,
            text@ == spaces(i as nat),
        decreases n - i,
    {
        text.append(" ");
        i = i + 1;
    }
    text
}

fn digit_string(d: u64) -> (res: String)
    requires
        d < 10,
    ensures
        res@ == digit_text(d as nat),
{
    if d == 0 {
        String::from_str("0")
    } else if d == 1 {
        String::from_str("1")
    } else if d == 2 {
        String::from_str("2")
    } else if d == 3 {
        String::from_str("3")
    } else if d == 4 {
        String::from_str("4")
    } else if d == 5 {
        String::from_str("5")
    } else if d == 6 {
        String::from_str("6")
    } else if d == 7 {
        String::from_str("7")
    } else if d == 8 {
        String::from_str("8")
    } else {
        String::from_str("9")
    }
}

/// The decimal numeral of an unsigned number.
pub fn u64_to_text(n: u64) -> (res: String)
    ensures
        res@ == nat_text(n as nat),
    decreases n,
{
    if n < 10 {
        digit_string(n)
    } else {
        let mut text = u64_to_text(n / 10);
        let last = digit_string(n % 10);
        text.append(last.as_str());
        text
    }
}

/// The decimal numeral of a signed number.
pub fn i64_to_text(n: i64) -> (res: String)
    ensures
        res@ == int_text(n as int),
{
    if n < 0 {
        let magnitude: u64 = if n == i64::MIN {
            9223372036854775808u64
        } else {
            (-n) as u64
        };
        let mut text = String::from_str("-");
        let digits = u64_to_text(magnitude);
        text.append(digits.as_str());
        text
    } else {
        u64_to_text(n as u64)
    }
}

/// The index of the last `c` in `s`, or `-1` when `s` holds none.
pub open spec fn last_index_of(s: Seq<char>, c: char) -> int
    decreases s.len(),
{
    if s.len() == 0 {
        -1
    } else if s.last() == c {
        s.len() - 1
    } else {
        last_index_of(s.drop_last(), c)
    }
}

/// What comes before the last `/` of a path (the path's segments but the
/// last, joined again by `/`), or nothing when it holds no `/`.
pub open spec fn directory_part(path: Seq<char>) -> Seq<char> {
    let k = last_index_of(path, '/');
    if k < 0 {
        Seq::empty()
    } else {
        path.take(k)
    }
}

/// What comes after the last `/` of a path: its last segment.
pub open spec fn file_part(path: Seq<char>) -> Seq<char> {
    path.skip(last_index_of(path, '/') + 1)
}

/// `s` with every `.ign`, found from left to right, removed.
pub open spec fn without_ign(s: Seq<char>) -> Seq<char>
    decreases s.len(),
{
    if s.len() < 4 {
        s
    } else if s.take(4) == ".ign"@ {
        without_ign(s.skip(4))
    } else {
        seq![s[0]] + without_ign(s.skip(1))
    }
}

proof fn lemma_last_index_scan(s: Seq<char>, c: char, k: int)
    requires
        -1 <= k < s.len(),
        k >= 0 ==> s[k] == c,
        forall|j: int| k < j < s.len() ==> s[j] != c,
    ensures
        last_index_of(s, c) == k,
    decreases s.len(),
{
    if s.len() > 0 && s.last() != c {
        assert forall|j: int| k < j < s.len() - 1 implies s.drop_last()[j] != c by {
            assert(s.drop_last()[j] == s[j]);
        }
        if k >= 0 {
            assert(s.drop_last()[k] == s[k]);
        }
        lemma_last_index_scan(s.drop_last(), c, k);
    }
}

/// The position of the last `/` in `path`, if any.
pub fn find_last_slash(path: &str) -> (res: Option<usize>)
    ensures
        match res {
            Some(k) => k as int == last_index_of(path@, '/') && k < path@.len() && path@[k as int] == '/',
            None => last_index_of(path@, '/') == -1,
        },
{
    let len = path.unicode_len();
    let mut i: usize = len;
    while i > 0
        invariant
            i <= len,
            len == path@.len(),
            forall|j: int| i <= j < len ==> path@[j] != '/',
        decreases i,
    {
        if path.get_char(i - 1) == '/' {
            proof {
                lemma_last_index_scan(path@, '/', i - 1);
            }
            return Some(i - 1);
        }
        i = i - 1;
    }
    proof {
        lemma_last_index_scan(path@, '/', -1);
    }
    None
}

/// `text` with every `.ign`, found from left to right, removed.
pub fn remove_ign(text: &str) -> (res: String)
    ensures
        res@ == without_ign(text@),
{
    let len = text.unicode_len();
    let pattern = String::from_str(".ign");
    let mut res = String::new();
    let mut i: usize = 0;
    proof {
        assert(text@.skip(0) =~= text@);
        assert(res@ + without_ign(text@) =~= without_ign(text@));
    }
    while i < len
        invariant
            i <= len,
            len == text@.len(),
            pattern@ == ".ign"@,
            res@ + without_ign(text@.skip(i as int)) == without_ign(text@),
        decreases len - i,
    {
        let ghost rest = text@.skip(i as int);
        if len - i >= 4 {
            let piece = String::from_str(text.substring_char(i, i + 4));
            if piece == pattern {
                proof {
                    assert(rest.take(4) =~= text@.subrange(i as int, i + 4));
                    assert(rest.skip(4) =~= text@.skip(i + 4));
                }
                i = i + 4;
                continue;
            }
            proof {
                assert(rest.take(4) =~= text@.subrange(i as int, i + 4));
            }
        }
        let one = text.substring_char(i, i + 1);
        res.append(one);
        proof {
            assert(rest.skip(1) =~= text@.skip(i + 1));
            assert(one@ =~= seq![rest[0]]);
            assert(res@ + without_ign(text@.skip(i + 1)) =~= (res@.drop_last()) + (seq![rest[0]]
                + without_ign(rest.skip(1))));
        }
        i = i + 1;
    }
    proof {
        assert(text@.skip(len as int) =~= Seq::<char>::empty());
        assert(res@ + Seq::<char>::empty() =~= res@);
    }
    res
}

/// Whether `c` is white space (Unicode's `White_Space` property, as
/// `char::is_whitespace` documents it).
pub open spec fn is_white(c: char) -> bool {
    let u = c as u32;
    ||| 0x09 <= u <= 0x0d
    ||| u == 0x20
    ||| u == 0x85
    ||| u == 0xa0
    ||| u == 0x1680
    ||| 0x2000 <= u <= 0x200a
    ||| u == 0x2028
    ||| u == 0x2029
    ||| u == 0x202f
    ||| u == 0x205f
    ||| u == 0x3000
}

/// `s` without its leading white space.
pub open spec fn trim_start(s: Seq<char>) -> Seq<char>
    decreases s.len(),
{
    if s.len() > 0 && is_white(s[0]) {
        trim_start(s.drop_first())
    } else {
        s
    }
}

/// `s` without its trailing white space.
pub open spec fn trim_end(s: Seq<char>) -> Seq<char>
    decreases s.len(),
{
    if s.len() > 0 && is_white(s.last()) {
        trim_end(s.drop_last())
    } else {
        s
    }
}

/// `s` without its leading and trailing white space.
pub open spec fn trimmed(s: Seq<char>) -> Seq<char> {
    trim_end(trim_start(s))
}

/// Whether `pattern` occurs in `s` at position `i`.
pub open spec fn occurs_at(s: Seq<char>, pattern: Seq<char>, i: int) -> bool {
    0 <= i && i + pattern.len() <= s.len() && s.subrange(i, i + pattern.len()) == pattern
}

/// The first position from `i` on where `pattern` occurs in `s`, or `-1`.
pub open spec fn first_index_from(s: Seq<char>, pattern: Seq<char>, i: int) -> int
    decreases s.len() + 1 - i,
{
    if i < 0 || i + pattern.len() > s.len() {
        -1
    } else if occurs_at(s, pattern, i) {
        i
    } else {
        first_index_from(s, pattern, i + 1)
    }
}

/// The first position where `pattern` occurs in `s`, or `-1`.
pub open spec fn first_index_of(s: Seq<char>, pattern: Seq<char>) -> int {
    first_index_from(s, pattern, 0)
}

/// Whether `c` is white space.
pub fn is_white_char(c: char) -> (res: bool)
    ensures
        res == is_white(c),
{
    let u = c as u32;
    (0x09 <= u && u <= 0x0d) || u == 0x20 || u == 0x85 || u == 0xa0 || u == 0x1680 || (0x2000 <= u
        && u <= 0x200a) || u == 0x2028 || u == 0x2029 || u == 0x202f || u == 0x205f || u == 0x3000
}

proof fn lemma_trim_start_skip(s: Seq<char>, i: int)
    requires
        0 <= i <= s.len(),
        forall|j: int| 0 <= j < i ==> is_white(#[trigger] s[j]),
    ensures
        trim_start(s) == trim_start(s.skip(i)),
    decreases i,
{
    if i > 0 {
        assert(s.skip(1) =~= s.drop_first());
        assert(s.drop_first().skip(i - 1) =~= s.skip(i));
        assert forall|j: int| 0 <= j < i - 1 implies is_white(#[trigger] s.drop_first()[j]) by {
            assert(s.drop_first()[j] == s[j + 1]);
        }
        lemma_trim_start_skip(s.drop_first(), i - 1);
    } else {
        assert(s.skip(0) =~= s);
    }
}

proof fn lemma_trim_end_take(s: Seq<char>, k: int)
    requires
        0 <= k <= s.len(),
        forall|j: int| k <= j < s.len() ==> is_white(#[trigger] s[j]),
    ensures
        trim_end(s) == trim_end(s.take(k)),
    decreases s.len() - k,
{
    if k < s.len() {
        assert(s.drop_last().take(k) =~= s.take(k));
        assert forall|j: int| k <= j < s.len() - 1 implies is_white(#[trigger] s.drop_last()[j]) by {
            assert(s.drop_last()[j] == s[j]);
        }
        lemma_trim_end_take(s.drop_last(), k);
    } else {
        assert(s.take(k) =~= s);
    }
}

/// `text` without its leading and trailing white space.
pub fn trim_text(text: &str) -> (res: String)
    ensures
        res@ == trimmed(text@),
{
    let len = text.unicode_len();
    let mut start: usize = 0;
    while start < len && is_white_char(text.get_char(start))
        invariant
            start <= len,
            len == text@.len(),
            forall|j: int| 0 <= j < start ==> is_white(#[trigger] text@[j]),
        decreases len - start,
    {
        start = start + 1;
    }
    proof {
        lemma_trim_start_skip(text@, start as int);
    }
    let ghost front = text@.skip(start as int);
    let mut end: usize = len;
    while end > start && is_white_char(text.get_char(end - 1))
        invariant
            start <= end <= len,
            len == text@.len(),
            forall|j: int| end <= j < len ==> is_white(#[trigger] text@[j]),
        decreases end - start,
    {
        end = end - 1;
    }
    proof {
        if start < len {
            assert(!is_white(front[0]));
        }
        assert(trim_start(front) == front);
        assert forall|j: int| end - start <= j < front.len() implies is_white(#[trigger] front[j]) by {
            assert(front[j] == text@[j + start]);
        }
        lemma_trim_end_take(front, end - start);
        let kept = front.take(end - start);
        if end > start {
            assert(kept.last() == text@[end - 1]);
        }
        assert(trim_end(kept) == kept);
        assert(kept =~= text@.subrange(start as int, end as int));
    }
    String::from_str(text.substring_char(start, end))
}

/// The position of the first `pattern` in `text`, if any.
pub fn find_first(text: &str, pattern: &str) -> (res: Option<usize>)
    ensures
        match res {
            Some(i) => i as int == first_index_of(text@, pattern@) && i + pattern@.len() <= text@.len(),
            None => first_index_of(text@, pattern@) < 0,
        },
{
    let len = text.unicode_len();
    let plen = pattern.unicode_len();
    let wanted = String::from_str(pattern);
    if plen > len {
        return None;
    }
    let last = len - plen;
    let mut i: usize = 0;
    loop
        invariant
            len == text@.len(),
            plen == pattern@.len(),
            wanted@ == pattern@,
            last == len - plen,
            i <= last,
            first_index_of(text@, pattern@) == first_index_from(text@, pattern@, i as int),
        decreases last - i,
    {
        let piece = String::from_str(text.substring_char(i, i + plen));
        if piece == wanted {
            proof {
                assert(occurs_at(text@, pattern@, i as int));
            }
            return Some(i);
        }
        proof {
            assert(!occurs_at(text@, pattern@, i as int));
            assert(first_index_from(text@, pattern@, i as int) == first_index_from(text@, pattern@, i + 1));
        }
        if i == last {
            proof {
                assert(first_index_from(text@, pattern@, i + 1) == -1);
            }
            return None;
        }
        i = i + 1;
    }
}

} // verus!
