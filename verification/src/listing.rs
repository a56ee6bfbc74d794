//! The manifests that are there to be had: from the names of the files in
//! the manifest directory, the device identities in sorted order.

use vstd::prelude::*;
use vstd::seq_lib::*;
use vstd::utf8::encode_utf8;
use crate::manifest::ManifestManager;
use crate::text::{lemma_same_bytes_same_text, strings_view};

verus! {

/// Whether `a` comes before `b`, or is equal to it, in the order of
/// dictionaries: by the first byte in which they differ, and a prefix
/// before what it is a prefix of.
pub open spec fn bytes_le(a: Seq<u8>, b: Seq<u8>) -> bool
    decreases a.len(),
{
    if a.len() == 0 {
        true
    } else if b.len() == 0 {
        false
    } else if a[0] != b[0] {
        a[0] < b[0]
    } else {
        bytes_le(a.drop_first(), b.drop_first())
    }
}

/// The order of texts: that of their UTF-8 bytes.
pub open spec fn text_le(a: Seq<char>, b: Seq<char>) -> bool {
    bytes_le(encode_utf8(a), encode_utf8(b))
}

/// Whether texts stand in ascending order.
pub open spec fn ascending(texts: Seq<Seq<char>>) -> bool {
    forall|i: int, j: int| 0 <= i < j < texts.len() ==> text_le(texts[i], texts[j])
}

/// Of two byte strings, one comes before the other or they are equal.
pub proof fn lemma_bytes_le_total(a: Seq<u8>, b: Seq<u8>)
    ensures
        bytes_le(a, b) || bytes_le(b, a),
    decreases a.len(),
{
    if a.len() > 0 && b.len() > 0 && a[0] == b[0] {
        lemma_bytes_le_total(a.drop_first(), b.drop_first());
    }
}

/// The order of byte strings is transitive.
pub proof fn lemma_bytes_le_transitive(a: Seq<u8>, b: Seq<u8>, c: Seq<u8>)
    requires
        bytes_le(a, b),
        bytes_le(b, c),
    ensures
        bytes_le(a, c),
    decreases a.len(),
{
    if a.len() > 0 && b.len() > 0 && c.len() > 0 && a[0] == b[0] && b[0] == c[0] {
        lemma_bytes_le_transitive(a.drop_first(), b.drop_first(), c.drop_first());
    }
}

/// Byte strings that come before each other are equal.
pub proof fn lemma_bytes_le_antisymmetric(a: Seq<u8>, b: Seq<u8>)
    requires
        bytes_le(a, b),
        bytes_le(b, a),
    ensures
        a == b,
    decreases a.len(),
{
    if a.len() > 0 && b.len() > 0 {
        lemma_bytes_le_antisymmetric(a.drop_first(), b.drop_first());
        assert(a =~= seq![a[0]] + a.drop_first());
        assert(b =~= seq![b[0]] + b.drop_first());
    } else {
        assert(a =~= b);
    }
}

/// Whether `a` comes before `b` or is equal to it.
pub fn bytes_before_or_equal(a: &[u8], b: &[u8]) -> (le: bool)
    ensures
        le == bytes_le(a@, b@),
{
    let mut i: usize = 0;
    proof {
        assert(a@.skip(0) =~= a@);
        assert(b@.skip(0) =~= b@);
    }
    while i < a.len() && i < b.len()
        invariant
            i <= a.len(),
            i <= b.len(),
            bytes_le(a@, b@) == bytes_le(a@.skip(i as int), b@.skip(i as int)),
        decreases a.len() - i,
    {
        proof {
            assert(a@.skip(i as int)[0] == a@[i as int]);
            assert(b@.skip(i as int)[0] == b@[i as int]);
            assert(a@.skip(i as int).drop_first() =~= a@.skip(i + 1));
            assert(b@.skip(i as int).drop_first() =~= b@.skip(i + 1));
        }
        if a[i] != b[i] {
            return a[i] < b[i];
        }
        i = i + 1;
    }
    proof {
        if i >= a.len() {
            assert(a@.skip(i as int).len() == 0);
        } else {
            assert(b@.skip(i as int).len() == 0);
        }
    }
    i >= a.len()
}

/// Whether a file name is that of a manifest: it ends with `.json`, and
/// something stands before that.
pub open spec fn is_manifest_file_name(name: Seq<char>) -> bool {
    name.len() > 5 && name.subrange(name.len() - 5, name.len() as int) == ".json"@
}

/// The device identity that a manifest's file name stands for: the name
/// without `.json`.
pub open spec fn identity_of_file_name(name: Seq<char>) -> Seq<char> {
    name.take(name.len() - 5)
}

/// The identities of the manifests among the first `n` file names, in the
/// order of the file names.
pub open spec fn identities(names: Seq<Seq<char>>, n: int) -> Seq<Seq<char>>
    decreases n,
{
    if n <= 0 {
        Seq::empty()
    } else if is_manifest_file_name(names[n - 1]) {
        identities(names, n - 1).push(identity_of_file_name(names[n - 1]))
    } else {
        identities(names, n - 1)
    }
}

/// The device identity that a file name stands for, if it is the name of a
/// manifest.
pub fn manifest_identity(name: &str) -> (identity: Option<String>)
    ensures
        match identity {
            Some(id) => is_manifest_file_name(name@) && id@ == identity_of_file_name(name@),
            None => !is_manifest_file_name(name@),
        },
{
    let n = name.unicode_len();
    if n <= 5 {
        return None;
    }
    proof {
        reveal_strlit(".json");
    }
    let stem_len: usize = n - 5;
    let ghost tail = name@.subrange(name@.len() - 5, name@.len() as int);
    if name.get_char(stem_len) != '.' {
        assert(tail[0] == name@[stem_len as int]);
        return None;
    }
    if name.get_char(stem_len + 1) != 'j' {
        assert(tail[1] == name@[stem_len + 1]);
        return None;
    }
    if name.get_char(stem_len + 2) != 's' {
        assert(tail[2] == name@[stem_len + 2]);
        return None;
    }
    if name.get_char(stem_len + 3) != 'o' {
        assert(tail[3] == name@[stem_len + 3]);
        return None;
    }
    if name.get_char(stem_len + 4) != 'n' {
        assert(tail[4] == name@[stem_len + 4]);
        return None;
    }
    proof {
        assert(tail =~= ".json"@);
        assert(name@.subrange(0, stem_len as int) =~= name@.take(name@.len() - 5));
    }
    Some(String::from_str(name.substring_char(0, stem_len)))
}

/// A sequence with one more element has the elements of the sequence and
/// that one.
proof fn lemma_insert_to_multiset(s: Seq<Seq<char>>, at: int, text: Seq<char>)
    requires
        0 <= at <= s.len(),
    ensures
        s.insert(at, text).to_multiset() == s.to_multiset().insert(text),
{
    let longer = s.insert(at, text);
    assert(longer.remove(at) =~= s);
    assert(longer[at] == text);
    to_multiset_remove(longer, at);
    longer.to_multiset_ensures();
    assert(longer.contains(text));
    assert(longer.to_multiset() =~= s.to_multiset().insert(text));
}

/// Puts `text` into `sorted` at its place in the order.
fn insert_sorted(sorted: &mut Vec<String>, text: String)
    requires
        ascending(strings_view(old(sorted)@)),
    ensures
        ascending(strings_view(final(sorted)@)),
        strings_view(final(sorted)@).to_multiset() == strings_view(old(sorted)@).to_multiset().insert(
            text@,
        ),
{
    let ghost before = strings_view(sorted@);
    let mut at: usize = 0;
    while at < sorted.len() && bytes_before_or_equal(
        sorted[at].as_str().as_bytes(),
        text.as_str().as_bytes(),
    )
        invariant
            at <= sorted.len(),
            before == strings_view(sorted@),
            forall|k: int| 0 <= k < at ==> text_le(before[k], text@),
        decreases sorted.len() - at,
    {
        proof {
            assert(before[at as int] == sorted@[at as int]@);
        }
        at = at + 1;
    }
    proof {
        if at < sorted.len() {
            assert(before[at as int] == sorted@[at as int]@);
            assert(!text_le(before[at as int], text@));
        }
    }
    sorted.insert(at, text);
    proof {
        let after = strings_view(sorted@);
        assert(after =~= before.insert(at as int, text@));
        lemma_insert_to_multiset(before, at as int, text@);
        assert forall|i: int, j: int| 0 <= i < j < after.len() implies text_le(
            after[i],
            after[j],
        ) by {
            if j < at {
            } else if j == at {
            } else if i == at {
                lemma_bytes_le_total(encode_utf8(before[at as int]), encode_utf8(text@));
                if j - 1 > at {
                    assert(text_le(before[at as int], before[j - 1]));
                    lemma_bytes_le_transitive(
                        encode_utf8(text@),
                        encode_utf8(before[at as int]),
                        encode_utf8(before[j - 1]),
                    );
                }
            } else if i < at {
                assert(after[i] == before[i]);
                assert(after[j] == before[j - 1]);
            } else {
                assert(after[i] == before[i - 1]);
                assert(after[j] == before[j - 1]);
            }
        }
    }
}

impl ManifestManager {
    /// The device identities that the manifest directory holds a manifest
    /// for, in ascending order. `file_names` are the names of the files in
    /// the directory.
    pub fn list_available_manifests(&self, file_names: &Vec<String>) -> (device_ids: Vec<String>)
        ensures
            ascending(strings_view(device_ids@)),
            strings_view(device_ids@).to_multiset() == identities(
                strings_view(file_names@),
                file_names.len() as int,
            ).to_multiset(),
    {
        let ghost names = strings_view(file_names@);
        let mut device_ids: Vec<String> = Vec::new();
        let mut i: usize = 0;
        proof {
            assert(strings_view(device_ids@) =~= identities(names, 0));
        }
        while i < file_names.len()
            invariant
                i <= file_names.len(),
                names == strings_view(file_names@),
                ascending(strings_view(device_ids@)),
                strings_view(device_ids@).to_multiset() == identities(names, i as int).to_multiset(),
            decreases file_names.len() - i,
        {
            proof {
                assert(names[i as int] == file_names@[i as int]@);
            }
            match manifest_identity(file_names[i].as_str()) {
                Some(id) => {
                    proof {
                        to_multiset_build(identities(names, i as int), id@);
                    }
                    insert_sorted(&mut device_ids, id);
                },
                None => {},
            }
            i = i + 1;
        }
        device_ids
    }
}

/// Two ascending sequences with the same elements are the same sequence:
/// the sorted list of identities is determined by the file names.
pub proof fn lemma_ascending_is_unique(a: Seq<Seq<char>>, b: Seq<Seq<char>>)
    requires
        ascending(a),
        ascending(b),
        a.to_multiset() == b.to_multiset(),
    ensures
        a == b,
    decreases a.len(),
{
    a.to_multiset_ensures();
    b.to_multiset_ensures();
    if a.len() == 0 {
        assert(a =~= b);
    } else {
        let x = a[0];
        let y = b[0];
        assert(a.contains(x));
        assert(b.contains(y));
        assert(b.to_multiset().count(x) > 0);
        assert(b.contains(x));
        assert(b.to_multiset().count(y) > 0);
        assert(a.to_multiset().count(y) > 0);
        assert(a.contains(y));
        let j = choose|j: int| 0 <= j < b.len() && b[j] == x;
        let i = choose|i: int| 0 <= i < a.len() && a[i] == y;
        assert(text_le(y, x)) by {
            if j > 0 {
                assert(text_le(b[0], b[j]));
            } else {
                lemma_bytes_le_total(encode_utf8(x), encode_utf8(x));
            }
        }
        assert(text_le(x, y)) by {
            if i > 0 {
                assert(text_le(a[0], a[i]));
            } else {
                lemma_bytes_le_total(encode_utf8(x), encode_utf8(x));
            }
        }
        lemma_bytes_le_antisymmetric(encode_utf8(x), encode_utf8(y));
        lemma_same_bytes_same_text(x, y);
        to_multiset_remove(a, 0);
        to_multiset_remove(b, 0);
        assert(a.remove(0) =~= a.drop_first());
        assert(b.remove(0) =~= b.drop_first());
        assert forall|p: int, q: int| 0 <= p < q < a.drop_first().len() implies text_le(
            a.drop_first()[p],
            a.drop_first()[q],
        ) by {
            assert(text_le(a[p + 1], a[q + 1]));
        }
        assert forall|p: int, q: int| 0 <= p < q < b.drop_first().len() implies text_le(
            b.drop_first()[p],
            b.drop_first()[q],
        ) by {
            assert(text_le(b[p + 1], b[q + 1]));
        }
        lemma_ascending_is_unique(a.drop_first(), b.drop_first());
        assert(a =~= seq![x] + a.drop_first());
        assert(b =~= seq![y] + b.drop_first());
    }
}

} // verus!
