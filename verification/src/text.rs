use vstd::prelude::*;

verus! {

broadcast use vstd::string::group_string_axioms;

// ---------------------------------------------------------------------------
// Character classes
// ---------------------------------------------------------------------------

/// The characters with the Unicode `White_Space` property, which is what
/// `char::is_whitespace`, `str::trim` and `str::trim_start` go by.
pub open spec fn is_space(c: char) -> bool {
    let u = c as u32;
    ||| 0x9 <= u <= 0xd
    ||| u == 0x20
    ||| u == 0x85
    ||| u == 0xa0
    ||| u == 0x1680
    ||| 0x2000 <= u <= 0x200a
    ||| u == 0x2028
    ||| u == 0x2029
    ||| u == 0x202f
    ||| u == 0x205f
    ||| u == 0x3000
}

pub fn is_space_char(c: char) -> (b: bool)
    ensures
        b == is_space(c),
{
    let u = c as u32;
    (0x9 <= u && u <= 0xd) || u == 0x20 || u == 0x85 || u == 0xa0 || u == 0x1680 || (0x2000 <= u
        && u <= 0x200a) || u == 0x2028 || u == 0x2029 || u == 0x202f || u == 0x205f || u == 0x3000
}

// ---------------------------------------------------------------------------
// Spec-level text operations
// ---------------------------------------------------------------------------

/// `n` spaces.
pub open spec fn spaces(n: nat) -> Seq<char> {
    Seq::new(n, |i: int| ' ')
}

/// `s` left-aligned in a field of `width` characters, as `{:<width}` formats it.
pub open spec fn pad_right(s: Seq<char>, width: nat) -> Seq<char> {
    if s.len() < width {
        s + spaces((width - s.len()) as nat)
    } else {
        s
    }
}

/// The decimal digit for `d < 10`.
pub open spec fn digit(d: nat) -> char {
    if d == 0 { '0' }
    else if d == 1 { '1' }
    else if d == 2 { '2' }
    else if d == 3 { '3' }
    else if d == 4 { '4' }
    else if d == 5 { '5' }
    else if d == 6 { '6' }
    else if d == 7 { '7' }
    else if d == 8 { '8' }
    else { '9' }
}

/// The decimal notation of `n`, as `{}` formats an unsigned integer.
pub open spec fn decimal(n: nat) -> Seq<char>
    decreases n,
{
    if n < 10 {
        seq![digit(n)]
    } else {
        decimal(n / 10) + seq![digit(n % 10)]
    }
}

/// The items joined with `sep` between each two, as `[String]::join` does.
pub open spec fn join(items: Seq<Seq<char>>, sep: Seq<char>) -> Seq<char>
    decreases items.len(),
{
    if items.len() == 0 {
        Seq::empty()
    } else if items.len() == 1 {
        items[0]
    } else {
        join(items.drop_last(), sep) + sep + items.last()
    }
}

/// The views of a sequence of strings.
pub open spec fn views(items: Seq<String>) -> Seq<Seq<char>> {
    items.map_values(|s: String| s@)
}

/// `needle` occurs in `hay` starting at position `i`.
pub open spec fn occurs_at(hay: Seq<char>, needle: Seq<char>, i: int) -> bool {
    0 <= i && i + needle.len() <= hay.len() && hay.subrange(i, i + needle.len()) == needle
}

/// `needle` occurs somewhere in `hay`, as `str::contains` decides.
pub open spec fn contains(hay: Seq<char>, needle: Seq<char>) -> bool {
    exists|i: int| occurs_at(hay, needle, i)
}

/// The first position at or after `i` that holds no whitespace (or the end).
pub open spec fn skip_spaces(s: Seq<char>, i: int) -> int
    decreases s.len() - i,
{
    if 0 <= i < s.len() && is_space(s[i]) {
        skip_spaces(s, i + 1)
    } else {
        i
    }
}

/// Walking back from `j` towards `lo`, the end of the text once trailing
/// whitespace is dropped.
pub open spec fn back_spaces(s: Seq<char>, lo: int, j: int) -> int
    decreases j - lo,
{
    if lo < j <= s.len() && is_space(s[j - 1]) {
        back_spaces(s, lo, j - 1)
    } else {
        j
    }
}

/// `s` without leading and trailing whitespace, as `str::trim` gives it.
pub open spec fn trim(s: Seq<char>) -> Seq<char> {
    let a = skip_spaces(s, 0);
    s.subrange(a, back_spaces(s, a, s.len() as int))
}

/// The position of the first line feed at or after `i`, or the end.
pub open spec fn line_end(s: Seq<char>, i: int) -> int
    decreases s.len() - i,
{
    if 0 <= i < s.len() && s[i] != '\n' {
        line_end(s, i + 1)
    } else {
        i
    }
}

/// The first line of `s`, as `s.lines().next().unwrap_or("")` gives it,
/// except for a carriage return at its end, which `trim` drops anyway.
pub open spec fn first_line(s: Seq<char>) -> Seq<char> {
    s.take(line_end(s, 0))
}

// ---------------------------------------------------------------------------
// Executable text operations
// ---------------------------------------------------------------------------

/// The characters of `s`, in order.
pub fn chars_of(s: &str) -> (v: Vec<char>)
    ensures
        v@ == s@,
{
    let mut v: Vec<char> = Vec::new();
    for c in it: s.chars()
        invariant
            v@ == it.seq().take(it.index()),
            it.seq() == s@,
    {
        v.push(c);
    }
    v
}

/// Appends `s` to `out`.
pub fn push(out: &mut String, s: &str)
    ensures
        final(out)@ == old(out)@ + s@,
{
    out.append(s);
}

/// Appends `n` spaces to `out`.
pub fn push_spaces(out: &mut String, n: usize)
    ensures
        final(out)@ == old(out)@ + spaces(n as nat),
{
    let ghost start = out@;
    let mut k: usize = 0;
    while k < n
        invariant
            k <= n,
            out@ == start + spaces(k as nat),
        decreases n - k,
    {
        proof {
            reveal_strlit(" ");
        }
        out.append(" ");
        k = k + 1;
        assert(out@ =~= start + spaces(k as nat));
    }
}

/// Appends `s` left-aligned in a field of `width` characters.
pub fn push_padded(out: &mut String, s: &str, width: usize)
    ensures
        final(out)@ == old(out)@ + pad_right(s@, width as nat),
{
    let len = s.unicode_len();
    out.append(s);
    if len < width {
        push_spaces(out, width - len);
        assert(out@ =~= old(out)@ + pad_right(s@, width as nat));
    }
}

/// The one-character string for the decimal digit `d`.
fn digit_str(d: usize) -> (r: &'static str)
    requires
        d < 10,
    ensures
        r@ == seq![digit(d as nat)],
{
    proof {
        reveal_strlit("0");
        reveal_strlit("1");
        reveal_strlit("2");
        reveal_strlit("3");
        reveal_strlit("4");
        reveal_strlit("5");
        reveal_strlit("6");
        reveal_strlit("7");
        reveal_strlit("8");
        reveal_strlit("9");
    }
    let r = if d == 0 { "0" }
    else if d == 1 { "1" }
    else if d == 2 { "2" }
    else if d == 3 { "3" }
    else if d == 4 { "4" }
    else if d == 5 { "5" }
    else if d == 6 { "6" }
    else if d == 7 { "7" }
    else if d == 8 { "8" }
    else { "9" };
    assert(r@ =~= seq![digit(d as nat)]);
    r
}

/// Appends the decimal notation of `n`.
pub fn push_decimal(out: &mut String, n: usize)
    ensures
        final(out)@ == old(out)@ + decimal(n as nat),
    decreases n,
{
    if n >= 10 {
        push_decimal(out, n / 10);
    }
    out.append(digit_str(n % 10));
    assert(out@ =~= old(out)@ + decimal(n as nat));
}

/// The items joined with `sep`, as `[String]::join` does.
pub fn join_strings(items: &Vec<String>, sep: &str) -> (r: String)
    ensures
        r@ == join(views(items@), sep@),
{
    let mut r = String::new();
    let ghost all = views(items@);
    let n = items.len();
    for i in 0..n
        invariant
            n == items@.len(),
            all == views(items@),
            r@ == join(all.take(i as int), sep@),
    {
        assert(all.take((i + 1) as int).drop_last() =~= all.take(i as int));
        if i != 0 {
            r.append(sep);
        }
        r.append(items[i].as_str());
    }
    assert(all.take(n as int) =~= all);
    r
}

/// Whether `needle` occurs in `hay` starting at `i`.
pub fn occurs_at_exec(hay: &Vec<char>, needle: &Vec<char>, i: usize) -> (b: bool)
    ensures
        b == occurs_at(hay@, needle@, i as int),
{
    if i > hay.len() || needle.len() > hay.len() - i {
        return false;
    }
    let n = needle.len();
    for k in 0..n
        invariant
            n == needle@.len(),
            i + n <= hay.len(),
            forall|m: int| 0 <= m < k ==> hay@[i + m] == needle@[m],
    {
        if hay[i + k] != needle[k] {
            assert(hay@.subrange(i as int, i + n)[k as int] != needle@[k as int]);
            return false;
        }
    }
    assert(hay@.subrange(i as int, i + n) =~= needle@);
    true
}

/// Whether `needle` occurs somewhere in `hay`.
pub fn contains_exec(hay: &Vec<char>, needle: &Vec<char>) -> (b: bool)
    ensures
        b == contains(hay@, needle@),
{
    let n = hay.len();
    let m = needle.len();
    if m == 0 {
        assert(hay@.subrange(0, 0) =~= needle@);
        assert(occurs_at(hay@, needle@, 0));
        return true;
    }
    if m > n {
        return false;
    }
    let last = n - m;
    let mut i: usize = 0;
    while i <= last
        invariant
            n == hay@.len(),
            m == needle@.len(),
            m >= 1,
            last + m == n,
            forall|j: int| 0 <= j < i ==> !occurs_at(hay@, needle@, j),
        decreases last + 1 - i,
    {
        if occurs_at_exec(hay, needle, i) {
            return true;
        }
        i = i + 1;
    }
    false
}

/// The first line of `s` with surrounding whitespace dropped, as
/// `s.lines().next().unwrap_or("").trim()` gives it.
pub fn trimmed_first_line(s: &str) -> (r: String)
    ensures
        r@ == trim(first_line(s@)),
{
    let c = chars_of(s);
    let n = c.len();
    let mut e: usize = 0;
    while e < n && c[e] != '\n'
        invariant
            n == c@.len(),
            c@ == s@,
            e <= n,
            line_end(s@, 0) == line_end(s@, e as int),
        decreases n - e,
    {
        e = e + 1;
    }
    let ghost fl = first_line(s@);
    assert(fl == s@.take(e as int));
    let mut a: usize = 0;
    while a < e && is_space_char(c[a])
        invariant
            e <= n,
            n == c@.len(),
            c@ == s@,
            fl == s@.take(e as int),
            a <= e,
            skip_spaces(fl, 0) == skip_spaces(fl, a as int),
        decreases e - a,
    {
        a = a + 1;
    }
    assert(skip_spaces(fl, 0) == a);
    let mut b: usize = e;
    while b > a && is_space_char(c[b - 1])
        invariant
            e <= n,
            n == c@.len(),
            c@ == s@,
            fl == s@.take(e as int),
            a <= b <= e,
            back_spaces(fl, a as int, e as int) == back_spaces(fl, a as int, b as int),
        decreases b - a,
    {
        b = b - 1;
    }
    assert(back_spaces(fl, a as int, fl.len() as int) == b);
    let r = s.substring_char(a, b).to_owned();
    assert(r@ =~= trim(fl));
    r
}

/// Whether two texts are the same.
pub fn same_text(a: &str, b: &str) -> (same: bool)
    ensures
        same == (a@ == b@),
{
    let x = chars_of(a);
    let y = chars_of(b);
    if x.len() != y.len() {
        return false;
    }
    let n = x.len();
    for i in 0..n
        invariant
            n == x@.len(),
            n == y@.len(),
            x@ == a@,
            y@ == b@,
            forall|k: int| 0 <= k < i ==> x@[k] == y@[k],
    {
        if x[i] != y[i] {
            assert(a@[i as int] != b@[i as int]);
            return false;
        }
    }
    assert(x@ =~= y@);
    true
}

/// The pieces of `s` between occurrences of `sep`, as `str::split` yields
/// them: one more piece than there are separators, empty pieces included.
pub open spec fn split_on(s: Seq<char>, sep: char) -> Seq<Seq<char>>
    decreases s.len(),
{
    if s.len() == 0 {
        seq![Seq::empty()]
    } else {
        let init = split_on(s.drop_last(), sep);
        if s.last() == sep {
            init.push(Seq::empty())
        } else {
            init.update(init.len() - 1, init.last().push(s.last()))
        }
    }
}

/// There is always at least one piece.
pub proof fn lemma_split_on_nonempty(s: Seq<char>, sep: char)
    ensures
        split_on(s, sep).len() >= 1,
    decreases s.len(),
{
    if s.len() > 0 {
        lemma_split_on_nonempty(s.drop_last(), sep);
    }
}

/// The pieces of `s` between occurrences of `sep`.
pub fn split_text(s: &str, sep: char) -> (parts: Vec<String>)
    ensures
        views(parts@) == split_on(s@, sep),
{
    let c = chars_of(s);
    let n = c.len();
    let mut parts: Vec<String> = Vec::new();
    let mut start: usize = 0;
    assert(s@.take(0) =~= Seq::<char>::empty());
    assert(views(parts@).push(s@.subrange(0, 0)) =~= seq![Seq::<char>::empty()]);
    for i in 0..n
        invariant
            n == c@.len(),
            c@ == s@,
            start <= i,
            views(parts@).push(s@.subrange(start as int, i as int)) == split_on(
                s@.take(i as int),
                sep,
            ),
    {
        let ghost prev = views(parts@);
        assert(s@.take(i + 1).drop_last() =~= s@.take(i as int));
        proof {
            lemma_split_on_nonempty(s@.take(i as int), sep);
        }
        if c[i] == sep {
            let ghost old_start = start;
            parts.push(s.substring_char(start, i).to_owned());
            start = i + 1;
            assert(views(parts@) =~= prev.push(s@.subrange(old_start as int, i as int)));
            assert(s@.take(i + 1).last() == sep);
            assert(s@.subrange(start as int, (i + 1) as int) =~= Seq::<char>::empty());
            assert(views(parts@).push(s@.subrange(start as int, (i + 1) as int)) =~= split_on(
                s@.take((i + 1) as int),
                sep,
            ));
        } else {
            assert(s@.subrange(start as int, (i + 1) as int) =~= s@.subrange(
                start as int,
                i as int,
            ).push(c@[i as int]));
            assert(views(parts@).push(s@.subrange(start as int, (i + 1) as int)) =~= split_on(
                s@.take((i + 1) as int),
                sep,
            ));
        }
    }
    parts.push(s.substring_char(start, n).to_owned());
    assert(s@.take(n as int) =~= s@);
    parts
}

/// `a` comes strictly before `b` in the order of code points, character by
/// character, a proper prefix first. For UTF-8 text this is the order of
/// the bytes, which is how paths compare.
pub open spec fn precedes(a: Seq<char>, b: Seq<char>) -> bool
    decreases a.len(),
{
    if b.len() == 0 {
        false
    } else if a.len() == 0 {
        true
    } else if a[0] != b[0] {
        (a[0] as u32) < (b[0] as u32)
    } else {
        precedes(a.drop_first(), b.drop_first())
    }
}

pub proof fn lemma_precedes_transitive(a: Seq<char>, b: Seq<char>, c: Seq<char>)
    requires
        precedes(a, b),
        precedes(b, c),
    ensures
        precedes(a, c),
    decreases a.len(),
{
    if a.len() > 0 && b.len() > 0 && c.len() > 0 && a[0] == b[0] && b[0] == c[0] {
        lemma_precedes_transitive(a.drop_first(), b.drop_first(), c.drop_first());
    }
}

pub proof fn lemma_precedes_asymmetric(a: Seq<char>, b: Seq<char>)
    ensures
        !(precedes(a, b) && precedes(b, a)),
    decreases a.len(),
{
    if a.len() > 0 && b.len() > 0 && a[0] == b[0] {
        lemma_precedes_asymmetric(a.drop_first(), b.drop_first());
    }
}

/// Whether `a` comes strictly before `b`.
pub fn precedes_exec(a: &str, b: &str) -> (r: bool)
    ensures
        r == precedes(a@, b@),
{
    let x = chars_of(a);
    let y = chars_of(b);
    let mut i: usize = 0;
    assert(a@.skip(0) =~= a@);
    assert(b@.skip(0) =~= b@);
    while i < x.len() && i < y.len() && x[i] == y[i]
        invariant
            i <= x@.len(),
            i <= y@.len(),
            x@ == a@,
            y@ == b@,
            precedes(a@, b@) == precedes(a@.skip(i as int), b@.skip(i as int)),
        decreases x@.len() - i,
    {
        assert(a@.skip(i as int).drop_first() =~= a@.skip(i + 1));
        assert(b@.skip(i as int).drop_first() =~= b@.skip(i + 1));
        i = i + 1;
    }
    if i == y.len() {
        false
    } else if i == x.len() {
        true
    } else {
        (x[i] as u32) < (y[i] as u32)
    }
}

/// A text without the separator is a single piece.
pub proof fn lemma_split_on_without_sep(s: Seq<char>, sep: char)
    requires
        forall|i: int| 0 <= i < s.len() ==> s[i] != sep,
    ensures
        split_on(s, sep) == seq![s],
    decreases s.len(),
{
    if s.len() > 0 {
        lemma_split_on_without_sep(s.drop_last(), sep);
        assert(s.drop_last().push(s.last()) =~= s);
    } else {
        assert(s =~= Seq::<char>::empty());
    }
}

/// Text after a last separator is the last piece.
pub proof fn lemma_split_on_last_piece(s: Seq<char>, t: Seq<char>, sep: char)
    requires
        forall|i: int| 0 <= i < t.len() ==> t[i] != sep,
    ensures
        split_on(s + seq![sep] + t, sep) == split_on(s, sep).push(t),
    decreases t.len(),
{
    let whole = s + seq![sep] + t;
    if t.len() == 0 {
        assert(whole.drop_last() =~= s);
        assert(t =~= Seq::<char>::empty());
    } else {
        let u = t.drop_last();
        lemma_split_on_last_piece(s, u, sep);
        assert(whole.drop_last() =~= s + seq![sep] + u);
        assert(whole.last() == t.last());
        lemma_split_on_nonempty(s, sep);
        assert(u.push(t.last()) =~= t);
        assert(split_on(whole, sep) =~= split_on(s, sep).push(t));
    }
}

/// Substring search is verbatim: `needle` is found in `hay` exactly when, at
/// some position, the characters of `hay` are those of `needle`, one for one
/// (so the search is case-sensitive: `Error:` does not contain `error:`).
pub proof fn lemma_contains_is_verbatim(hay: Seq<char>, needle: Seq<char>)
    ensures
        contains(hay, needle) <==> exists|i: int|
            0 <= i && i + needle.len() <= hay.len() && #[trigger] hay.subrange(i, i + needle.len())
                == needle,
        contains(hay, needle) ==> needle.len() <= hay.len(),
{
    if contains(hay, needle) {
        let i = choose|i: int| occurs_at(hay, needle, i);
        assert(hay.subrange(i, i + needle.len()) == needle);
    }
    if exists|i: int|
        0 <= i && i + needle.len() <= hay.len() && #[trigger] hay.subrange(i, i + needle.len())
            == needle {
        let i = choose|i: int|
            0 <= i && i + needle.len() <= hay.len() && #[trigger] hay.subrange(i, i + needle.len())
                == needle;
        assert(occurs_at(hay, needle, i));
    }
}

/// Text found in the middle of a text is found in the whole.
pub proof fn lemma_contains_within(x: Seq<char>, y: Seq<char>, z: Seq<char>, needle: Seq<char>)
    requires
        contains(y, needle),
    ensures
        contains(x + y + z, needle),
{
    let i = choose|i: int| occurs_at(y, needle, i);
    let j = x.len() + i;
    assert((x + y + z).subrange(j, j + needle.len()) =~= y.subrange(i, i + needle.len()));
    assert(occurs_at(x + y + z, needle, j));
}

/// The total length of some texts.
pub open spec fn total_len(items: Seq<Seq<char>>) -> int
    decreases items.len(),
{
    if items.len() == 0 {
        0
    } else {
        total_len(items.drop_last()) + items.last().len()
    }
}

/// Joining keeps every item and adds one separator between each two: the
/// result is as long as the items together plus `n - 1` separators.
pub proof fn lemma_join_len(items: Seq<Seq<char>>, sep: Seq<char>)
    requires
        items.len() > 0,
    ensures
        join(items, sep).len() == total_len(items) + (items.len() - 1) * sep.len(),
    decreases items.len(),
{
    if items.len() > 1 {
        lemma_join_len(items.drop_last(), sep);
        let n = items.len() as int;
        let s = sep.len() as int;
        assert((n - 2) * s + s == (n - 1) * s) by (nonlinear_arith);
        assert(join(items, sep).len() == join(items.drop_last(), sep).len() + s
            + items.last().len());
    } else {
        assert(total_len(items.drop_last()) == 0);
        assert(total_len(items) == items[0].len());
        assert((items.len() - 1) * sep.len() == 0);
    }
}

/// Every item occurs in the joined text.
pub proof fn lemma_join_contains_items(items: Seq<Seq<char>>, sep: Seq<char>)
    ensures
        forall|k: int| 0 <= k < items.len() ==> contains(join(items, sep), #[trigger] items[k]),
    decreases items.len(),
{
    if items.len() == 1 {
        assert(occurs_at(join(items, sep), items[0], 0)) by {
            assert(join(items, sep).subrange(0, items[0].len() as int) =~= items[0]);
        }
    } else if items.len() > 1 {
        let init = items.drop_last();
        lemma_join_contains_items(init, sep);
        let front = join(init, sep) + sep;
        assert forall|k: int| 0 <= k < items.len() implies contains(
            join(items, sep),
            #[trigger] items[k],
        ) by {
            if k == items.len() - 1 {
                let j = front.len() as int;
                assert(join(items, sep) == front + items.last());
                assert(join(items, sep).subrange(j, j + items[k].len()) =~= items[k]);
                assert(occurs_at(join(items, sep), items[k], j));
            } else {
                assert(items[k] == init[k]);
                assert(contains(join(init, sep), init[k]));
                lemma_contains_within(Seq::empty(), join(init, sep), sep + items.last(), items[k]);
                assert(Seq::<char>::empty() + join(init, sep) + (sep + items.last()) =~= join(
                    items,
                    sep,
                ));
            }
        }
    }
}

} // verus!
