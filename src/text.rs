//! Character-level helpers on which the parsers of this crate are built.
use vstd::prelude::*;
use vstd::std_specs::iter::IteratorSpec;

verus! {

/// Relies on `String::push`: the character is appended at the end.
#[verifier::external_body]
pub(crate) fn push_char(s: &mut String, c: char)
    ensures
        final(s)@ == old(s)@.push(c),
{
    s.push(c);
}

/// The characters of `s`, in order.
pub fn chars_of(s: &str) -> (r: Vec<char>)
    ensures
        r@ == s@,
{
    let mut it = s.chars();
    let mut r: Vec<char> = Vec::new();
    loop
        invariant
            r@ + it.remaining() == s@,
            it.decrease() is Some,
        ensures
            r@ == s@,
        decreases it.decrease()->0,
    {
        match it.next() {
            Some(c) => {
                r.push(c);
            },
            None => {
                assert(r@ + it.remaining() =~= r@);
                break ;
            },
        }
    }
    r
}


/// The string holding `cs[lo..hi]`.
pub fn string_of(cs: &Vec<char>, lo: usize, hi: usize) -> (r: String)
    requires
        lo <= hi <= cs@.len(),
    ensures
        r@ == cs@.subrange(lo as int, hi as int),
{
    let mut r = String::new();
    let mut i = lo;
    while i < hi
        invariant
            lo <= i <= hi <= cs@.len(),
            r@ == cs@.subrange(lo as int, i as int),
        decreases hi - i,
    {
        push_char(&mut r, cs[i]);
        assert(cs@.subrange(lo as int, i + 1) =~= cs@.subrange(lo as int, i as int).push(cs@[i as int]));
        i = i + 1;
    }
    r
}

/// The decimal digit character for `d < 10`.
pub open spec fn digit_char(d: nat) -> char {
    if d == 0 { '0' } else if d == 1 { '1' } else if d == 2 { '2' } else if d == 3 { '3' }
    else if d == 4 { '4' } else if d == 5 { '5' } else if d == 6 { '6' } else if d == 7 { '7' }
    else if d == 8 { '8' } else { '9' }
}

/// The decimal rendering of `n`, without sign or leading zeros.
pub open spec fn decimal(n: nat) -> Seq<char>
    decreases n,
{
    if n < 10 {
        seq![digit_char(n)]
    } else {
        decimal(n / 10).push(digit_char(n % 10))
    }
}

fn digit_to_char(d: u64) -> (c: char)
    requires
        d < 10,
    ensures
        c == digit_char(d as nat),
{
    if d == 0 { '0' } else if d == 1 { '1' } else if d == 2 { '2' } else if d == 3 { '3' }
    else if d == 4 { '4' } else if d == 5 { '5' } else if d == 6 { '6' } else if d == 7 { '7' }
    else if d == 8 { '8' } else { '9' }
}

/// Appends the decimal rendering of `n` to `s`.
pub fn push_decimal(s: &mut String, n: u64)
    ensures
        final(s)@ == old(s)@ + decimal(n as nat),
    decreases n,
{
    if n >= 10 {
        push_decimal(s, n / 10);
    }
    push_char(s, digit_to_char(n % 10));
    assert(old(s)@ + decimal(n as nat) =~= final(s)@) by {
        if n >= 10 {
            assert(decimal(n as nat) == decimal((n / 10) as nat).push(digit_char((n % 10) as nat)));
        }
    }
}

/// Appends the characters of `t` to `s`.
pub fn push_str(s: &mut String, t: &str)
    ensures
        final(s)@ == old(s)@ + t@,
{
    s.append(t);
}

/// Whether `c` is an ASCII decimal digit.
pub open spec fn is_digit(c: char) -> bool {
    '0' <= c && c <= '9'
}

/// The value of the ASCII digit `c`.
pub open spec fn digit_value(c: char) -> nat {
    (c as u32 - '0' as u32) as nat
}

/// The value of a run of decimal digits, most significant first.
pub open spec fn digits_value(ds: Seq<char>) -> nat
    decreases ds.len(),
{
    if ds.len() == 0 {
        0
    } else {
        digits_value(ds.drop_last()) * 10 + digit_value(ds.last())
    }
}

/// The digits that an unsigned number in `s` consists of, once an optional
/// leading `+` is taken off.
pub open spec fn unsigned_digits(s: Seq<char>) -> Seq<char> {
    if s.len() > 0 && s[0] == '+' { s.drop_first() } else { s }
}

/// The `u32` that `s` denotes: an optional `+` followed by one or more ASCII
/// digits whose value fits in 32 bits; anything else denotes none.
pub open spec fn parse_u32_spec(s: Seq<char>) -> Option<u32> {
    let ds = unsigned_digits(s);
    if ds.len() > 0 && (forall|i: int| 0 <= i < ds.len() ==> is_digit(#[trigger] ds[i]))
        && digits_value(ds) <= u32::MAX {
        Some(digits_value(ds) as u32)
    } else {
        None
    }
}

proof fn lemma_digits_value_grows(ds: Seq<char>, k: int)
    requires
        0 <= k <= ds.len(),
    ensures
        digits_value(ds.subrange(0, k)) <= digits_value(ds),
    decreases ds.len() - k,
{
    if k < ds.len() {
        lemma_digits_value_grows(ds, k + 1);
        assert(ds.subrange(0, k + 1).drop_last() =~= ds.subrange(0, k));
    } else {
        assert(ds.subrange(0, k) =~= ds);
    }
}

/// Parses an unsigned 32-bit decimal number.
pub fn parse_u32(s: &str) -> (r: Option<u32>)
    ensures
        r == parse_u32_spec(s@),
{
    parse_u32_chars(&chars_of(s))
}

/// Parses the characters `cs` as an unsigned 32-bit decimal number.
pub fn parse_u32_chars(cs: &Vec<char>) -> (r: Option<u32>)
    ensures
        r == parse_u32_spec(cs@),
{
    let ghost s = cs@;
    let ghost ds = unsigned_digits(s);
    let start: usize = if cs.len() > 0 && cs[0] == '+' { 1 } else { 0 };
    assert(ds =~= cs@.subrange(start as int, cs@.len() as int));
    if start >= cs.len() {
        return None;
    }
    let mut acc: u32 = 0;
    let mut i: usize = start;
    while i < cs.len()
        invariant
            start <= i <= cs@.len(),
            start < cs@.len(),
            s == cs@,
            ds == unsigned_digits(s),
            ds == cs@.subrange(start as int, cs@.len() as int),
            forall|j: int| 0 <= j < i - start ==> is_digit(#[trigger] ds[j]),
            acc as nat == digits_value(ds.subrange(0, i - start)),
        decreases cs.len() - i,
    {
        let c = cs[i];
        assert(c == ds[i - start]);
        if !('0' <= c && c <= '9') {
            assert(!is_digit(ds[i - start]));
            return None;
        }
        let d: u32 = (c as u32) - ('0' as u32);
        assert(ds.subrange(0, i - start + 1).drop_last() =~= ds.subrange(0, i - start));
        assert(digits_value(ds.subrange(0, i - start + 1)) == acc * 10 + d);
        if acc > 429496729 || (acc == 429496729 && d > 5) {
            proof {
                lemma_digits_value_grows(ds, i - start + 1);
            }
            return None;
        }
        acc = acc * 10 + d;
        i = i + 1;
    }
    assert(ds.subrange(0, i - start) =~= ds);
    Some(acc)
}

/// Whether `p` occurs in `s` starting at position `i`.
pub open spec fn occurs_at(s: Seq<char>, p: Seq<char>, i: int) -> bool {
    0 <= i && i + p.len() <= s.len() && s.subrange(i, i + p.len()) == p
}

/// Whether `p` occurs in `s` as a run of consecutive characters.
pub open spec fn seq_contains(s: Seq<char>, p: Seq<char>) -> bool {
    exists|i: int| occurs_at(s, p, i)
}

fn matches_at(s: &Vec<char>, p: &Vec<char>, i: usize) -> (r: bool)
    requires
        i + p@.len() <= s@.len(),
    ensures
        r == occurs_at(s@, p@, i as int),
{
    let n = s.len();
    let mut k: usize = 0;
    while k < p.len()
        invariant
            n == s@.len(),
            i + p@.len() <= s@.len(),
            k <= p@.len(),
            s@.subrange(i as int, i + k) == p@.subrange(0, k as int),
        decreases p.len() - k,
    {
        if s[i + k] != p[k] {
            assert(s@.subrange(i as int, i + p@.len())[k as int] != p@[k as int]);
            return false;
        }
        assert(s@.subrange(i as int, i + k + 1) =~= s@.subrange(i as int, i + k).push(s@[i + k]));
        assert(p@.subrange(0, k + 1) =~= p@.subrange(0, k as int).push(p@[k as int]));
        k = k + 1;
    }
    assert(p@.subrange(0, k as int) =~= p@);
    true
}

/// Whether `p` occurs in `s`.
pub fn contains_chars(s: &Vec<char>, p: &Vec<char>) -> (r: bool)
    ensures
        r == seq_contains(s@, p@),
{
    if p.len() > s.len() {
        return false;
    }
    let last = s.len() - p.len();
    let mut i: usize = 0;
    while i <= last
        invariant
            last == s@.len() - p@.len(),
            i <= last,
            forall|j: int| 0 <= j < i ==> !occurs_at(s@, p@, j),
        ensures
            forall|j: int| 0 <= j <= last ==> !occurs_at(s@, p@, j),
        decreases last + 1 - i,
    {
        if matches_at(s, p, i) {
            return true;
        }
        if i == last {
            break;
        }
        i = i + 1;
    }
    assert forall|j: int| !occurs_at(s@, p@, j) by {
        if 0 <= j <= last {
        }
    }
    false
}

/// Whether `a` and `b` hold the same characters.
pub fn same_chars(a: &Vec<char>, b: &Vec<char>) -> (r: bool)
    ensures
        r == (a@ == b@),
{
    if a.len() != b.len() {
        return false;
    }
    let mut i: usize = 0;
    while i < a.len()
        invariant
            a@.len() == b@.len(),
            i <= a@.len(),
            forall|j: int| 0 <= j < i ==> a@[j] == b@[j],
        decreases a.len() - i,
    {
        if a[i] != b[i] {
            return false;
        }
        i = i + 1;
    }
    assert(a@ =~= b@);
    true
}


/// The character views of a sequence of strings.
pub open spec fn views(v: Seq<String>) -> Seq<Seq<char>> {
    v.map_values(|x: String| x@)
}

/// `l` without one trailing carriage return.
pub open spec fn strip_cr(l: Seq<char>) -> Seq<char> {
    if l.len() > 0 && l.last() == '\r' {
        l.drop_last()
    } else {
        l
    }
}

/// The lines of `t`, given that the current line so far holds `cur`: lines
/// end at `'\n'` (a `'\r'` right before it is dropped too), and a final line
/// needs no terminator but is not empty.
pub open spec fn lines_acc(t: Seq<char>, cur: Seq<char>) -> Seq<Seq<char>>
    decreases t.len(),
{
    if t.len() == 0 {
        if cur.len() > 0 { seq![cur] } else { seq![] }
    } else if t[0] == '\n' {
        seq![strip_cr(cur)] + lines_acc(t.drop_first(), seq![])
    } else {
        lines_acc(t.drop_first(), cur.push(t[0]))
    }
}

/// The lines of `t`.
pub open spec fn lines_of(t: Seq<char>) -> Seq<Seq<char>> {
    lines_acc(t, seq![])
}

/// Splits `text` into its lines.
pub fn split_lines(text: &str) -> (r: Vec<String>)
    ensures
        views(r@) == lines_of(text@),
{
    let cs = chars_of(text);
    let n = cs.len();
    let mut out: Vec<String> = Vec::new();
    let mut w: usize = 0;
    let mut i: usize = 0;
    assert(cs@.skip(0) =~= cs@);
    assert(cs@.subrange(0, 0) =~= Seq::<char>::empty());
    assert(views(out@) + lines_of(cs@) =~= lines_of(cs@));
    while i < n
        invariant
            n == cs@.len(),
            cs@ == text@,
            w <= i <= n,
            views(out@) + lines_acc(cs@.skip(i as int), cs@.subrange(w as int, i as int))
                == lines_of(cs@),
        decreases n - i,
    {
        let ghost t = cs@.skip(i as int);
        assert(t.drop_first() =~= cs@.skip(i + 1));
        if cs[i] == '\n' {
            let mut e = i;
            if e > w && cs[e - 1] == '\r' {
                e = e - 1;
            }
            let line = string_of(&cs, w, e);
            assert(line@ == strip_cr(cs@.subrange(w as int, i as int)));
            assert(views(out@.push(line)) =~= views(out@).push(line@));
            assert(views(out@).push(line@) + lines_acc(cs@.skip(i + 1), seq![]) =~= views(out@)
                + (seq![line@] + lines_acc(cs@.skip(i + 1), seq![])));
            out.push(line);
            w = i + 1;
            assert(cs@.subrange(w as int, i + 1) =~= Seq::<char>::empty());
        } else {
            assert(cs@.subrange(w as int, i + 1) =~= cs@.subrange(w as int, i as int).push(cs@[i as int]));
        }
        i = i + 1;
    }
    assert(cs@.skip(n as int) =~= Seq::<char>::empty());
    if w < n {
        let line = string_of(&cs, w, n);
        assert(views(out@.push(line)) =~= views(out@).push(line@));
        out.push(line);
    } else {
        assert(views(out@) + Seq::<Seq<char>>::empty() =~= views(out@));
    }
    out
}

/// Whether `c` separates the fields of a table row: a character with the
/// Unicode `White_Space` property.
pub open spec fn is_blank(c: char) -> bool {
    ('\t' <= c && c <= '\r') || c == ' ' || c == '\u{85}' || c == '\u{a0}' || c == '\u{1680}' || (
    '\u{2000}' <= c && c <= '\u{200a}') || c == '\u{2028}' || c == '\u{2029}' || c == '\u{202f}'
        || c == '\u{205f}' || c == '\u{3000}'
}

fn blank(c: char) -> (r: bool)
    ensures
        r == is_blank(c),
{
    ('\t' <= c && c <= '\r') || c == ' ' || c == '\u{85}' || c == '\u{a0}' || c == '\u{1680}' || (
    '\u{2000}' <= c && c <= '\u{200a}') || c == '\u{2028}' || c == '\u{2029}' || c == '\u{202f}'
        || c == '\u{205f}' || c == '\u{3000}'
}

/// The fields of `t`, given that the current field so far holds `cur`:
/// fields are maximal runs of characters other than spaces and tabs.
pub open spec fn fields_acc(t: Seq<char>, cur: Seq<char>) -> Seq<Seq<char>>
    decreases t.len(),
{
    if t.len() == 0 {
        if cur.len() > 0 { seq![cur] } else { seq![] }
    } else if is_blank(t[0]) {
        (if cur.len() > 0 { seq![cur] } else { seq![] }) + fields_acc(t.drop_first(), seq![])
    } else {
        fields_acc(t.drop_first(), cur.push(t[0]))
    }
}

/// The whitespace-separated fields of `t`.
pub open spec fn fields_of(t: Seq<char>) -> Seq<Seq<char>> {
    fields_acc(t, seq![])
}

/// Splits a table row into its fields.
pub fn split_fields(line: &str) -> (r: Vec<Vec<char>>)
    ensures
        r@.map_values(|f: Vec<char>| f@) == fields_of(line@),
{
    let cs = chars_of(line);
    let n = cs.len();
    let mut out: Vec<Vec<char>> = Vec::new();
    let mut cur: Vec<char> = Vec::new();
    let mut i: usize = 0;
    assert(cs@.skip(0) =~= cs@);
    assert(cur@ =~= Seq::<char>::empty());
    assert(out@.map_values(|f: Vec<char>| f@) + fields_of(cs@) =~= fields_of(cs@));
    while i < n
        invariant
            n == cs@.len(),
            cs@ == line@,
            i <= n,
            out@.map_values(|f: Vec<char>| f@) + fields_acc(cs@.skip(i as int), cur@)
                == fields_of(cs@),
        decreases n - i,
    {
        let ghost t = cs@.skip(i as int);
        assert(t.drop_first() =~= cs@.skip(i + 1));
        let c = cs[i];
        assert(t[0] == c);
        if blank(c) {
            if cur.len() > 0 {
                let ghost before = out@;
                let ghost f = cur@;
                out.push(cur);
                assert(out@.map_values(|f: Vec<char>| f@) =~= before.map_values(|f: Vec<char>| f@).push(f));
                assert(before.map_values(|f: Vec<char>| f@).push(f) + fields_acc(cs@.skip(i + 1), seq![]) =~= before.map_values(|f: Vec<char>| f@)
                    + (seq![f] + fields_acc(cs@.skip(i + 1), seq![])));
                cur = Vec::new();
                assert(cur@ =~= seq![]);
            } else {
                assert(cur@ =~= seq![]);
                assert(Seq::<Seq<char>>::empty() + fields_acc(cs@.skip(i + 1), seq![]) =~= fields_acc(cs@.skip(i + 1), seq![]));
            }
        } else {
            let ghost prev = cur@;
            cur.push(c);
            assert(fields_acc(t, prev) == fields_acc(cs@.skip(i + 1), cur@));
        }
        i = i + 1;
    }
    assert(cs@.skip(n as int) =~= Seq::<char>::empty());
    if cur.len() > 0 {
        let ghost before = out@;
        let ghost f = cur@;
        out.push(cur);
        assert(out@.map_values(|f: Vec<char>| f@) =~= before.map_values(|f: Vec<char>| f@).push(f));
    } else {
        assert(out@.map_values(|f: Vec<char>| f@) + Seq::<Seq<char>>::empty() =~= out@.map_values(|f: Vec<char>| f@));
    }
    out
}


/// The component that a run of characters between separators gives: none
/// when it is empty or `.`.
pub open spec fn component_piece(cur: Seq<char>) -> Seq<Seq<char>> {
    if cur.len() > 0 && cur != "."@ {
        seq![cur]
    } else {
        seq![]
    }
}

/// The components of path `t`, given that the current one so far holds
/// `cur`: the runs between `/` separators, without empty and `.` runs.
pub open spec fn components_acc(t: Seq<char>, cur: Seq<char>) -> Seq<Seq<char>>
    decreases t.len(),
{
    if t.len() == 0 {
        component_piece(cur)
    } else if t[0] == '/' {
        component_piece(cur) + components_acc(t.drop_first(), seq![])
    } else {
        components_acc(t.drop_first(), cur.push(t[0]))
    }
}

/// The components of path `p`.
pub open spec fn path_components(p: Seq<char>) -> Seq<Seq<char>> {
    components_acc(p, seq![])
}

/// The name of the directory that holds `p`: the component before its last
/// one, unless there is none or it is `..`.
pub open spec fn parent_dir_name(p: Seq<char>) -> Option<Seq<char>> {
    let cs = path_components(p);
    if cs.len() >= 2 && cs[cs.len() - 2] != ".."@ {
        Some(cs[cs.len() - 2])
    } else {
        None
    }
}

/// Splits a path into its components.
pub fn split_components(path: &str) -> (r: Vec<Vec<char>>)
    ensures
        r@.map_values(|f: Vec<char>| f@) == path_components(path@),
{
    let cs = chars_of(path);
    let dot = chars_of(".");
    let n = cs.len();
    let mut out: Vec<Vec<char>> = Vec::new();
    let mut cur: Vec<char> = Vec::new();
    let mut i: usize = 0;
    assert(cs@.skip(0) =~= cs@);
    assert(cur@ =~= Seq::<char>::empty());
    assert(out@.map_values(|f: Vec<char>| f@) + path_components(cs@) =~= path_components(cs@));
    while i < n
        invariant
            n == cs@.len(),
            cs@ == path@,
            dot@ == "."@,
            i <= n,
            out@.map_values(|f: Vec<char>| f@) + components_acc(cs@.skip(i as int), cur@)
                == path_components(cs@),
        decreases n - i,
    {
        let ghost t = cs@.skip(i as int);
        assert(t.drop_first() =~= cs@.skip(i + 1));
        let c = cs[i];
        assert(t[0] == c);
        if c == '/' {
            let ghost before = out@;
            let ghost f = cur@;
            if cur.len() > 0 && !same_chars(&cur, &dot) {
                out.push(cur);
                assert(out@.map_values(|f: Vec<char>| f@) =~= before.map_values(|f: Vec<char>| f@).push(f));
            }
            assert(before.map_values(|f: Vec<char>| f@) + (component_piece(f) + components_acc(
                cs@.skip(i + 1),
                seq![],
            )) =~= out@.map_values(|f: Vec<char>| f@) + components_acc(cs@.skip(i + 1), seq![]));
            cur = Vec::new();
            assert(cur@ =~= seq![]);
        } else {
            let ghost prev = cur@;
            cur.push(c);
            assert(components_acc(t, prev) == components_acc(cs@.skip(i + 1), cur@));
        }
        i = i + 1;
    }
    assert(cs@.skip(n as int) =~= Seq::<char>::empty());
    let ghost before = out@;
    let ghost f = cur@;
    if cur.len() > 0 && !same_chars(&cur, &dot) {
        out.push(cur);
        assert(out@.map_values(|f: Vec<char>| f@) =~= before.map_values(|f: Vec<char>| f@).push(f));
    }
    assert(before.map_values(|f: Vec<char>| f@) + component_piece(f) =~= out@.map_values(
        |f: Vec<char>| f@,
    ));
    out
}

/// The name of the directory that holds `path`, if it has one.
pub fn parent_name(path: &str) -> (r: Option<Vec<char>>)
    ensures
        match r {
            Some(d) => parent_dir_name(path@) == Some(d@),
            None => parent_dir_name(path@) is None,
        },
{
    let cs = split_components(path);
    let ghost v = cs@.map_values(|f: Vec<char>| f@);
    if cs.len() >= 2 {
        let k = cs.len() - 2;
        assert(v[k as int] == cs@[k as int]@);
        if !same_chars(&cs[k], &chars_of("..")) {
            return Some(cs[k].clone());
        }
    }
    None
}

/// The path of the entry `name` inside directory `dir`.
pub open spec fn child_path(dir: Seq<char>, name: Seq<char>) -> Seq<char> {
    if dir.len() > 0 && dir.last() == '/' {
        dir + name
    } else {
        dir + "/"@ + name
    }
}

/// Joins directory `dir` and entry name `name`.
pub fn join_path(dir: &str, name: &str) -> (r: String)
    ensures
        r@ == child_path(dir@, name@),
{
    let cs = chars_of(dir);
    let mut r = String::from_str(dir);
    if !(cs.len() > 0 && cs[cs.len() - 1] == '/') {
        push_str(&mut r, "/");
    }
    push_str(&mut r, name);
    r
}

} // verus!
