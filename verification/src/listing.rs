use vstd::prelude::*;
use vstd::seq_lib::{to_multiset_build, to_multiset_insert};
use vstd::utf8::encode_utf8;

verus! {

/// A file name whose extension, as `Path::extension` reads it, is `sql`: it ends in `.sql`
/// and something comes before that dot.
pub open spec fn is_sql_file_name(name: Seq<char>) -> bool {
    let n = name.len() as int;
    &&& n >= 5
    &&& name[n - 4] == '.'
    &&& name[n - 3] == 's'
    &&& name[n - 2] == 'q'
    &&& name[n - 1] == 'l'
}

/// Lexicographic order on byte strings, a prefix coming first.
pub open spec fn bytes_le(a: Seq<u8>, b: Seq<u8>) -> bool
    decreases a.len(),
{
    if a.len() == 0 {
        true
    } else if b.len() == 0 {
        false
    } else if a[0] != b[0] {
        a[0] < b[0]
    } else {
        bytes_le(a.drop_first(), b.drop_first())
    }
}

/// The order of `String`s: lexicographic on their UTF-8 bytes.
pub open spec fn name_le(a: Seq<char>, b: Seq<char>) -> bool {
    bytes_le(encode_utf8(a), encode_utf8(b))
}

/// Each name comes no later than the names after it.
pub open spec fn sorted_names(s: Seq<Seq<char>>) -> bool {
    forall|i: int, j: int| 0 <= i < j < s.len() ==> name_le(#[trigger] s[i], #[trigger] s[j])
}

/// The texts of a list of strings.
pub open spec fn texts(v: Seq<String>) -> Seq<Seq<char>> {
    v.map_values(|s: String| s@)
}

/// The names among `entries` that the file browser lists, in their given order.
pub open spec fn sql_names(entries: Seq<Seq<char>>) -> Seq<Seq<char>> {
    entries.filter(|t: Seq<char>| is_sql_file_name(t))
}

pub proof fn lemma_bytes_le_total(a: Seq<u8>, b: Seq<u8>)
    ensures
        bytes_le(a, b) || bytes_le(b, a),
    decreases a.len(),
{
    if a.len() > 0 && b.len() > 0 && a[0] == b[0] {
        lemma_bytes_le_total(a.drop_first(), b.drop_first());
    }
}

pub proof fn lemma_bytes_le_transitive(a: Seq<u8>, b: Seq<u8>, c: Seq<u8>)
    requires
        bytes_le(a, b),
        bytes_le(b, c),
    ensures
        bytes_le(a, c),
    decreases a.len(),
{
    if a.len() > 0 && b.len() > 0 && c.len() > 0 && a[0] == b[0] && b[0] == c[0] {
        lemma_bytes_le_transitive(a.drop_first(), b.drop_first(), c.drop_first());
    }
}

/// The order of byte strings is the dictionary order: it is total and transitive, two strings
/// that come no later than each other are equal, a proper prefix comes first, and otherwise
/// the first differing byte decides.
pub proof fn law_bytes_order_is_lexicographic(a: Seq<u8>, b: Seq<u8>, c: Seq<u8>, i: int)
    ensures
        bytes_le(a, b) || bytes_le(b, a),
        bytes_le(a, b) && bytes_le(b, c) ==> bytes_le(a, c),
        bytes_le(a, b) && bytes_le(b, a) ==> a == b,
        a.len() < b.len() && a == b.take(a.len() as int) ==> bytes_le(a, b) && !bytes_le(b, a),
        0 <= i < a.len() && i < b.len() && a.take(i) == b.take(i) && a[i] < b[i] ==> bytes_le(a, b)
            && !bytes_le(b, a),
    decreases a.len(),
{
    lemma_bytes_le_total(a, b);
    if bytes_le(a, b) && bytes_le(b, c) {
        lemma_bytes_le_transitive(a, b, c);
    }
    if a.len() > 0 && b.len() > 0 && a[0] == b[0] {
        let c1 = if c.len() > 0 { c.drop_first() } else { c };
        law_bytes_order_is_lexicographic(a.drop_first(), b.drop_first(), c1, i - 1);
        if bytes_le(a, b) && bytes_le(b, a) {
            assert(a =~= seq![a[0]] + a.drop_first());
            assert(b =~= seq![b[0]] + b.drop_first());
        }
        if a.len() < b.len() && a == b.take(a.len() as int) {
            assert(a.drop_first() =~= b.drop_first().take(a.drop_first().len() as int));
        }
        if 0 < i < a.len() && i < b.len() && a.take(i) == b.take(i) {
            assert(a.drop_first().take(i - 1) =~= a.take(i).drop_first());
            assert(b.drop_first().take(i - 1) =~= b.take(i).drop_first());
            assert(a.drop_first()[i - 1] == a[i]);
            assert(b.drop_first()[i - 1] == b[i]);
        }
    }
    if 0 < i < a.len() && i < b.len() && a.take(i) == b.take(i) {
        assert(a[0] == a.take(i)[0]);
        assert(b[0] == b.take(i)[0]);
    }
    if a.len() == 0 && b.len() == 0 {
        assert(a =~= b);
    }
    if a.len() > 0 && a.len() < b.len() && a == b.take(a.len() as int) {
        assert(a[0] == b.take(a.len() as int)[0]);
    }
}

proof fn lemma_bytes_le_skip(a: Seq<u8>, b: Seq<u8>, i: int)
    requires
        0 <= i <= a.len(),
        i <= b.len(),
        a.take(i) == b.take(i),
    ensures
        bytes_le(a, b) == bytes_le(a.skip(i), b.skip(i)),
    decreases i,
{
    if i > 0 {
        assert(a[0] == a.take(i)[0]);
        assert(b[0] == b.take(i)[0]);
        assert(a.drop_first().take(i - 1) =~= a.take(i).drop_first());
        assert(b.drop_first().take(i - 1) =~= b.take(i).drop_first());
        lemma_bytes_le_skip(a.drop_first(), b.drop_first(), i - 1);
        assert(a.drop_first().skip(i - 1) =~= a.skip(i));
        assert(b.drop_first().skip(i - 1) =~= b.skip(i));
    } else {
        assert(a.skip(0) =~= a);
        assert(b.skip(0) =~= b);
    }
}

/// Whether `a` comes no later than `b` in the order of `String`s.
pub fn name_comes_first(a: &str, b: &str) -> (r: bool)
    ensures
        r == name_le(a@, b@),
{
    let x = a.as_bytes();
    let y = b.as_bytes();
    let ghost xs = x@;
    let ghost ys = y@;
    let mut i: usize = 0;
    while i < x.len() && i < y.len() && x[i] == y[i]
        invariant
            xs == x@,
            ys == y@,
            xs == encode_utf8(a@),
            ys == encode_utf8(b@),
            i <= xs.len(),
            i <= ys.len(),
            xs.take(i as int) == ys.take(i as int),
        decreases xs.len() - i,
    {
        assert(xs.take(i + 1) =~= xs.take(i as int).push(xs[i as int]));
        assert(ys.take(i + 1) =~= ys.take(i as int).push(ys[i as int]));
        i = i + 1;
    }
    proof {
        lemma_bytes_le_skip(xs, ys, i as int);
        let xr = xs.skip(i as int);
        let yr = ys.skip(i as int);
        if i < xs.len() {
            assert(xr[0] == xs[i as int]);
        }
        if i < ys.len() {
            assert(yr[0] == ys[i as int]);
        }
    }
    if i == x.len() {
        true
    } else if i == y.len() {
        false
    } else {
        x[i] < y[i]
    }
}

/// Whether `name` is that of an `.sql` file.
pub fn has_sql_extension(name: &str) -> (r: bool)
    ensures
        r == is_sql_file_name(name@),
{
    let n = name.unicode_len();
    if n < 5 {
        false
    } else {
        name.get_char(n - 4) == '.' && name.get_char(n - 3) == 's' && name.get_char(n - 2) == 'q'
            && name.get_char(n - 1) == 'l'
    }
}

proof fn lemma_texts_insert(v: Seq<String>, i: int, s: String)
    requires
        0 <= i <= v.len(),
    ensures
        texts(v.insert(i, s)) == texts(v).insert(i, s@),
{
    assert(texts(v.insert(i, s)) =~= texts(v).insert(i, s@));
}

/// Puts `name` into the sorted list `v` after the names that come no later than it.
fn insert_sorted(v: &mut Vec<String>, name: String)
    requires
        sorted_names(texts(old(v)@)),
    ensures
        sorted_names(texts(final(v)@)),
        texts(final(v)@).to_multiset() == texts(old(v)@).to_multiset().insert(name@),
{
    let ghost s = texts(v@);
    let mut i: usize = 0;
    while i < v.len() && name_comes_first(v[i].as_str(), name.as_str())
        invariant
            s == texts(v@),
            sorted_names(s),
            i <= v.len(),
            forall|j: int| 0 <= j < i ==> name_le(#[trigger] s[j], name@),
        decreases v.len() - i,
    {
        assert(s[i as int] == v@[i as int]@);
        i = i + 1;
    }
    proof {
        if i < v.len() {
            assert(s[i as int] == v@[i as int]@);
            lemma_bytes_le_total(encode_utf8(s[i as int]), encode_utf8(name@));
        }
        assert forall|j: int| i <= j < s.len() implies name_le(name@, #[trigger] s[j]) by {
            if j > i {
                lemma_bytes_le_transitive(
                    encode_utf8(name@),
                    encode_utf8(s[i as int]),
                    encode_utf8(s[j]),
                );
            }
        }
    }
    let ghost old_v = v@;
    v.insert(i, name);
    proof {
        lemma_texts_insert(old_v, i as int, name);
        let t = texts(v@);
        assert(t == s.insert(i as int, name@));
        to_multiset_insert(s, i as int, name@);
        assert forall|a: int, b: int| 0 <= a < b < t.len() implies name_le(
            #[trigger] t[a],
            #[trigger] t[b],
        ) by {
            if a < i && b == i {
            } else if a == i && b > i {
                assert(t[b] == s[b - 1]);
            } else if a < i && b > i {
                assert(t[b] == s[b - 1]);
            } else if b < i {
            } else {
                assert(t[a] == s[a - 1]);
                assert(t[b] == s[b - 1]);
            }
        }
    }
}

/// The `.sql` files among the directory entries `entries`, in the order of `String`s.
pub fn sql_files(entries: &Vec<String>) -> (files: Vec<String>)
    ensures
        sorted_names(texts(files@)),
        texts(files@).to_multiset() == sql_names(texts(entries@)).to_multiset(),
{
    let mut files: Vec<String> = Vec::new();
    let ghost all = texts(entries@);
    proof {
        assert(all.take(0) =~= Seq::<Seq<char>>::empty());
        reveal(Seq::filter);
        assert(sql_names(all.take(0)) =~= texts(files@));
    }
    for i in 0..entries.len()
        invariant
            all == texts(entries@),
            sorted_names(texts(files@)),
            texts(files@).to_multiset() == sql_names(all.take(i as int)).to_multiset(),
    {
        proof {
            assert(all.take(i + 1) =~= all.take(i as int).push(all[i as int]));
            all.take(i as int).lemma_filter_push(all[i as int], |t: Seq<char>| is_sql_file_name(t));
            to_multiset_build(sql_names(all.take(i as int)), all[i as int]);
        }
        if has_sql_extension(entries[i].as_str()) {
            let name = entries[i].clone();
            insert_sorted(&mut files, name);
        }
    }
    proof {
        assert(all.take(entries@.len() as int) =~= all);
    }
    files
}

} // verus!
