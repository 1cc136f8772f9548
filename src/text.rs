//! Character-level helpers: whitespace trimming, splitting on a separator,
//! joining, and lower-casing, each with its model over `Seq<char>`.
use vstd::prelude::*;

verus! {

/// Unicode `White_Space`: the characters that `str::trim` removes.
pub open spec fn is_ws(c: char) -> bool {
    ('\u{9}' <= c && c <= '\u{d}') || c == ' ' || c == '\u{85}' || c == '\u{a0}' || c
        == '\u{1680}' || ('\u{2000}' <= c && c <= '\u{200a}') || c == '\u{2028}' || c
        == '\u{2029}' || c == '\u{202f}' || c == '\u{205f}' || c == '\u{3000}'
}

/// `s` without its leading whitespace.
pub open spec fn strip_start(s: Seq<char>) -> Seq<char>
    decreases s.len(),
{
    if s.len() > 0 && is_ws(s[0]) {
        strip_start(s.drop_first())
    } else {
        s
    }
}

/// `s` without its trailing whitespace.
pub open spec fn strip_end(s: Seq<char>) -> Seq<char>
    decreases s.len(),
{
    if s.len() > 0 && is_ws(s.last()) {
        strip_end(s.drop_last())
    } else {
        s
    }
}

/// `s` without leading or trailing whitespace.
pub open spec fn trim_ws(s: Seq<char>) -> Seq<char> {
    strip_end(strip_start(s))
}

/// The pieces of `s` between occurrences of `sep`; there is always at least one.
pub open spec fn split_on(s: Seq<char>, sep: char) -> Seq<Seq<char>>
    decreases s.len(),
{
    if s.len() == 0 {
        seq![Seq::<char>::empty()]
    } else {
        let rest = split_on(s.drop_first(), sep);
        if s[0] == sep {
            seq![Seq::<char>::empty()] + rest
        } else {
            rest.update(0, seq![s[0]] + rest[0])
        }
    }
}

/// The pieces `xs` put together with `sep` between each two.
pub open spec fn join_with(xs: Seq<Seq<char>>, sep: Seq<char>) -> Seq<char>
    decreases xs.len(),
{
    if xs.len() == 0 {
        Seq::empty()
    } else if xs.len() == 1 {
        xs[0]
    } else {
        join_with(xs.drop_last(), sep) + sep + xs.last()
    }
}

/// The character models of a sequence of strings.
pub open spec fn views(v: Seq<String>) -> Seq<Seq<char>> {
    v.map_values(|s: String| s@)
}

/// Every character is ASCII and none is an upper-case letter.
pub open spec fn ascii_lower_already(s: Seq<char>) -> bool {
    forall|i: int| 0 <= i < s.len() ==> (s[i] as u32) < 128 && !('A' <= #[trigger] s[i] && s[i] <= 'Z')
}

/// What `str::to_lowercase` returns for `s`: Unicode lower-case mapping.
pub uninterp spec fn lower_of(s: Seq<char>) -> Seq<char>;

/// Relies on `str::trim`: it removes leading and trailing `White_Space` characters.
#[verifier::external_body]
pub fn trim(s: &str) -> (r: &str)
    ensures
        r@ == trim_ws(s@),
{
    s.trim()
}

/// Every character is ASCII.
pub open spec fn all_ascii(s: Seq<char>) -> bool {
    forall|i: int| 0 <= i < s.len() ==> (#[trigger] s[i] as u32) < 128
}

/// `A`..`Z` to `a`..`z`; any other character is kept.
pub open spec fn ascii_lower_char(c: char) -> char {
    if 'A' <= c && c <= 'Z' {
        ((c as u32) + 32) as char
    } else {
        c
    }
}

/// The ASCII lower-case form of `s`.
pub open spec fn ascii_lower(s: Seq<char>) -> Seq<char> {
    s.map_values(|c: char| ascii_lower_char(c))
}

/// The lower-case form of `s`: for an ASCII string, `A`..`Z` become `a`..`z` and
/// the rest is kept.
pub open spec fn lowercase_of(s: Seq<char>) -> Seq<char> {
    if all_ascii(s) {
        ascii_lower(s)
    } else {
        lower_of(s)
    }
}

/// Relies on `str::to_lowercase`: the Unicode lower-case mapping, which on ASCII
/// characters maps `A`..`Z` to `a`..`z` and keeps the others.
#[verifier::external_body]
pub fn to_lower(s: &str) -> (r: String)
    ensures
        all_ascii(s@) ==> r@ == ascii_lower(s@),
        !all_ascii(s@) ==> r@ == lower_of(s@),
{
    s.to_lowercase()
}

/// A string that is ASCII with no upper-case letter is its own lower-case form.
pub proof fn lemma_lowercase_noop(s: Seq<char>)
    requires
        ascii_lower_already(s),
    ensures
        lowercase_of(s) == s,
{
    assert(all_ascii(s));
    assert(ascii_lower(s) =~= s);
}

/// Relies on `str::split` with a `char` pattern: the pieces between the separators.
#[verifier::external_body]
pub fn split(s: &str, sep: char) -> (r: Vec<String>)
    ensures
        views(r@) == split_on(s@, sep),
{
    s.split(sep).map(|p| p.to_string()).collect()
}

/// The strings of `xs`, with `sep` between each two.
pub fn join(xs: &Vec<String>, sep: &str) -> (r: String)
    ensures
        r@ == join_with(views(xs@), sep@),
{
    let mut out = String::new();
    let mut i: usize = 0;
    while i < xs.len()
        invariant
            i <= xs.len(),
            out@ == join_with(views(xs@).take(i as int), sep@),
        decreases xs.len() - i,
    {
        proof {
            assert(views(xs@).take(i + 1).drop_last() =~= views(xs@).take(i as int));
        }
        if i > 0 {
            out.append(sep);
        }
        out.append(xs[i].as_str());
        i = i + 1;
    }
    proof {
        assert(views(xs@).take(xs.len() as int) =~= views(xs@));
    }
    out
}

/// Whether `xs` holds a string equal to `s`.
pub fn contains(xs: &Vec<String>, s: &str) -> (r: bool)
    ensures
        r == views(xs@).contains(s@),
{
    let target = s.to_owned();
    let mut i: usize = 0;
    while i < xs.len()
        invariant
            i <= xs.len(),
            target@ == s@,
            forall|j: int| 0 <= j < i ==> xs@[j]@ != s@,
        decreases xs.len() - i,
    {
        if xs[i] == target {
            proof {
                assert(views(xs@)[i as int] == s@);
            }
            return true;
        }
        i = i + 1;
    }
    proof {
        if views(xs@).contains(s@) {
            let j = choose|j: int| 0 <= j < views(xs@).len() && views(xs@)[j] == s@;
            assert(xs@[j]@ == s@);
        }
    }
    false
}

pub proof fn lemma_strip_start_idem(s: Seq<char>)
    ensures
        strip_start(strip_start(s)) == strip_start(s),
        strip_start(s).len() > 0 ==> !is_ws(strip_start(s)[0]),
    decreases s.len(),
{
    if s.len() > 0 && is_ws(s[0]) {
        lemma_strip_start_idem(s.drop_first());
    }
}

pub proof fn lemma_strip_end_idem(s: Seq<char>)
    ensures
        strip_end(strip_end(s)) == strip_end(s),
        strip_end(s).len() > 0 ==> !is_ws(strip_end(s).last()),
    decreases s.len(),
{
    if s.len() > 0 && is_ws(s.last()) {
        lemma_strip_end_idem(s.drop_last());
    }
}

/// A string whose first character is not whitespace keeps it after `strip_end`.
proof fn lemma_strip_end_keeps_start(s: Seq<char>)
    requires
        s.len() > 0,
        !is_ws(s[0]),
    ensures
        strip_end(s).len() > 0,
        strip_end(s)[0] == s[0],
        strip_start(strip_end(s)) == strip_end(s),
    decreases s.len(),
{
    if is_ws(s.last()) {
        lemma_strip_end_keeps_start(s.drop_last());
    }
}

/// Trimming twice is trimming once.
pub proof fn lemma_trim_idem(s: Seq<char>)
    ensures
        trim_ws(trim_ws(s)) == trim_ws(s),
{
    let a = strip_start(s);
    lemma_strip_start_idem(s);
    lemma_strip_end_idem(a);
    if a.len() > 0 {
        lemma_strip_end_keeps_start(a);
    }
    if strip_end(a).len() > 0 {
        lemma_strip_end_keeps_start(a);
    }
}

/// A string that neither starts nor ends with whitespace is its own trim.
pub proof fn lemma_trim_noop(s: Seq<char>)
    requires
        s.len() > 0 ==> !is_ws(s[0]) && !is_ws(s.last()),
    ensures
        trim_ws(s) == s,
{
}

/// Splitting at a separator between two parts splits each part.
pub proof fn lemma_split_concat(a: Seq<char>, b: Seq<char>, sep: char)
    ensures
        split_on(a + seq![sep] + b, sep) == split_on(a, sep) + split_on(b, sep),
    decreases a.len(),
{
    let whole = a + seq![sep] + b;
    if a.len() == 0 {
        assert(whole.drop_first() =~= b);
        assert(seq![Seq::<char>::empty()] + split_on(b, sep) =~= split_on(a, sep) + split_on(b, sep));
    } else {
        assert(whole.drop_first() =~= a.drop_first() + seq![sep] + b);
        lemma_split_concat(a.drop_first(), b, sep);
        lemma_split_nonempty(a.drop_first(), sep);
        let x = split_on(a.drop_first(), sep);
        let y = split_on(b, sep);
        if a[0] == sep {
            assert(seq![Seq::<char>::empty()] + (x + y) =~= (seq![Seq::<char>::empty()] + x) + y);
        } else {
            assert((x + y).update(0, seq![a[0]] + (x + y)[0]) =~= x.update(0, seq![a[0]] + x[0]) + y);
        }
    }
}

/// `split_on` always gives at least one piece, and no piece holds the separator;
/// a single piece is the whole string.
pub proof fn lemma_split_nonempty(s: Seq<char>, sep: char)
    ensures
        split_on(s, sep).len() >= 1,
        forall|i: int| 0 <= i < split_on(s, sep).len() ==> !(#[trigger] split_on(s, sep)[i]).contains(sep),
        split_on(s, sep).len() == 1 ==> split_on(s, sep)[0] == s,
    decreases s.len(),
{
    if s.len() > 0 {
        let rest = split_on(s.drop_first(), sep);
        lemma_split_nonempty(s.drop_first(), sep);
        let r = split_on(s, sep);
        if s[0] == sep {
            assert forall|i: int| 0 <= i < r.len() implies !(#[trigger] r[i]).contains(sep) by {
                if i > 0 {
                    assert(r[i] == rest[i - 1]);
                }
            }
        } else {
            assert forall|i: int| 0 <= i < r.len() implies !(#[trigger] r[i]).contains(sep) by {
                if i == 0 {
                    let p = seq![s[0]] + rest[0];
                    if p.contains(sep) {
                        let k = choose|k: int| 0 <= k < p.len() && p[k] == sep;
                        assert(rest[0][k - 1] == sep);
                    }
                }
            }
            if r.len() == 1 {
                assert(seq![s[0]] + s.drop_first() =~= s);
            }
        }
    }
}

/// A string without the separator is a single piece.
pub proof fn lemma_split_single(b: Seq<char>, sep: char)
    requires
        !b.contains(sep),
    ensures
        split_on(b, sep) == seq![b],
    decreases b.len(),
{
    if b.len() > 0 {
        assert(b[0] != sep);
        if b.drop_first().contains(sep) {
            let k = choose|k: int| 0 <= k < b.drop_first().len() && b.drop_first()[k] == sep;
            assert(b[k + 1] == sep);
        }
        lemma_split_single(b.drop_first(), sep);
        assert(seq![b[0]] + b.drop_first() =~= b);
        assert(seq![b.drop_first()].update(0, seq![b[0]] + b.drop_first()) =~= seq![b]);
    } else {
        assert(b =~= Seq::<char>::empty());
    }
}

/// Splitting what `join_with` made gives the pieces back, where no piece holds
/// the separator.
pub proof fn lemma_split_join(xs: Seq<Seq<char>>, sep: char)
    requires
        xs.len() >= 1,
        forall|i: int| 0 <= i < xs.len() ==> !(#[trigger] xs[i]).contains(sep),
    ensures
        split_on(join_with(xs, seq![sep]), sep) == xs,
    decreases xs.len(),
{
    if xs.len() == 1 {
        lemma_split_single(xs[0], sep);
        assert(seq![xs[0]] =~= xs);
    } else {
        let init = xs.drop_last();
        assert forall|i: int| 0 <= i < init.len() implies !(#[trigger] init[i]).contains(sep) by {
            assert(init[i] == xs[i]);
        }
        lemma_split_join(init, sep);
        lemma_split_concat(join_with(init, seq![sep]), xs.last(), sep);
        assert(!xs[xs.len() - 1].contains(sep));
        lemma_split_single(xs.last(), sep);
        assert(init + seq![xs.last()] =~= xs);
    }
}

/// The first character of a joined sequence: that of the first piece, or the
/// separator after an empty first piece.
pub proof fn lemma_join_first(xs: Seq<Seq<char>>, sep: Seq<char>)
    requires
        xs.len() >= 1,
        sep.len() > 0,
    ensures
        xs[0].len() > 0 ==> join_with(xs, sep).len() > 0 && join_with(xs, sep)[0] == xs[0][0],
        xs[0].len() == 0 && xs.len() >= 2 ==> join_with(xs, sep).len() > 0 && join_with(xs, sep)[0]
            == sep[0],
    decreases xs.len(),
{
    if xs.len() >= 2 {
        let init = xs.drop_last();
        lemma_join_first(init, sep);
        if init.len() >= 2 || xs[0].len() > 0 {
            assert(join_with(init, sep).len() > 0);
        } else {
            assert(join_with(init, sep) == xs[0]);
        }
    }
}

/// The characters of the trimmed string are characters of the string.
pub proof fn lemma_trim_chars(s: Seq<char>, c: char)
    requires
        trim_ws(s).contains(c),
    ensures
        s.contains(c),
{
    lemma_strip_end_sub(strip_start(s), c);
    lemma_strip_start_sub(s, c);
}

proof fn lemma_strip_start_sub(s: Seq<char>, c: char)
    requires
        strip_start(s).contains(c),
    ensures
        s.contains(c),
    decreases s.len(),
{
    if s.len() > 0 && is_ws(s[0]) {
        lemma_strip_start_sub(s.drop_first(), c);
        let k = choose|k: int| 0 <= k < s.drop_first().len() && s.drop_first()[k] == c;
        assert(s[k + 1] == c);
    }
}

proof fn lemma_strip_end_sub(s: Seq<char>, c: char)
    requires
        strip_end(s).contains(c),
    ensures
        s.contains(c),
    decreases s.len(),
{
    if s.len() > 0 && is_ws(s.last()) {
        lemma_strip_end_sub(s.drop_last(), c);
        let k = choose|k: int| 0 <= k < s.drop_last().len() && s.drop_last()[k] == c;
        assert(s[k] == c);
    }
}

/// A non-empty trimmed string starts and ends with a character that is not
/// whitespace.
pub proof fn lemma_trim_ends(s: Seq<char>)
    ensures
        trim_ws(s).len() > 0 ==> !is_ws(trim_ws(s)[0]) && !is_ws(trim_ws(s).last()),
{
    let a = strip_start(s);
    lemma_strip_start_idem(s);
    lemma_strip_end_idem(a);
    if a.len() > 0 {
        lemma_strip_end_keeps_start(a);
    }
}

} // verus!
