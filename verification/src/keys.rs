//! A key-value server's keys, folded into folders on their colons.
//!
//! The shape is a lie that everybody tells: the server has one flat namespace
//! and no folders at all, but every keyspace is named `user:1:cart` and read
//! as though the colons were slashes. So the colons are treated as slashes
//! here, and the folders are labelled with what is actually under them.
use crate::catalog::KeyInfo;
use crate::lists::{lemma_filter_all, lemma_filter_none, lemma_filter_step};
use crate::order::{
    bytes_are_before, bytes_before, lemma_before_irreflexive, lemma_before_total,
    lemma_before_transitive, lemma_path_irreflexive, lemma_path_total, lemma_path_transitive,
    octets, path_before, text_is_before,
};
use crate::text::{
    chars_of, every_separator_cuts, joined, occurrences, split, split_on, splitting_loses_nothing,
    texts,
};
use crate::tree::{group, plain, rows, Goal, NodeKind, Row, TreeNode};
use crate::wording::{counted, expiry, plural, ttl_meta};
use vstd::prelude::*;
use vstd::utf8::{
    char_is_scalar, decode_utf8, decode_utf8_encode_utf8, encode_scalar, encode_utf8,
    has_width_1_encoding, valid_utf8,
};

verus! {

/// `std::str::from_utf8` accepts exactly the bytes that are valid UTF-8, and
/// gives back the characters they encode.
#[verifier::external_body]
fn decoded(bytes: &[u8]) -> (text: Option<String>)
    ensures
        text is Some <==> valid_utf8(bytes@),
        text matches Some(text) ==> text@ == decode_utf8(bytes@),
{
    match std::str::from_utf8(bytes) {
        Ok(text) => Some(text.to_owned()),
        Err(_) => None,
    }
}

/// The texts between a key's colons, and nothing when its bytes are not text.
pub open spec fn path(key: Seq<u8>) -> Seq<Seq<char>> {
    if valid_utf8(key) {
        split(decode_utf8(key), ':')
    } else {
        Seq::empty()
    }
}

/// Keys with the same segments are the same key: `user::1` has an empty one in
/// the middle, and is not `user:1`.
pub proof fn segments_tell_keys_apart(a: Seq<u8>, b: Seq<u8>)
    requires
        valid_utf8(a),
        valid_utf8(b),
        path(a) == path(b),
    ensures
        a == b,
{
    splitting_loses_nothing(decode_utf8(a), ':');
    splitting_loses_nothing(decode_utf8(b), ':');
    decode_utf8_encode_utf8(a);
    decode_utf8_encode_utf8(b);
}

/// How many colons are in some bytes.
pub open spec fn colons(bytes: Seq<u8>) -> nat
    decreases bytes.len(),
{
    if bytes.len() == 0 {
        0
    } else {
        colons(bytes.drop_last()) + if bytes.last() == 0x3a {
            1nat
        } else {
            0
        }
    }
}

/// The colons of two runs of bytes are those of the one and of the other.
proof fn lemma_colons_add(a: Seq<u8>, b: Seq<u8>)
    ensures
        colons(a + b) == colons(a) + colons(b),
    decreases b.len(),
{
    if b.len() == 0 {
        assert(a + b =~= a);
    } else {
        lemma_colons_add(a, b.drop_last());
        assert((a + b).drop_last() =~= a + b.drop_last());
    }
}

/// Bytes with no colon among them have no colons.
proof fn lemma_no_colons(bytes: Seq<u8>)
    requires
        forall|i: int| 0 <= i < bytes.len() ==> (#[trigger] bytes[i]) != 0x3a,
    ensures
        colons(bytes) == 0,
    decreases bytes.len(),
{
    if bytes.len() > 0 {
        assert(bytes.last() == bytes[bytes.len() - 1]);
        lemma_no_colons(bytes.drop_last());
    }
}

/// A colon is encoded as one, and nothing else has one in its encoding.
proof fn lemma_colon_of(c: char)
    ensures
        colons(encode_scalar(c as u32)) == if c == ':' {
            1nat
        } else {
            0
        },
{
    let v = c as u32;
    char_is_scalar(c);
    let bytes = encode_scalar(v);
    if has_width_1_encoding(v) {
        assert(v <= 0x7f ==> (v & 0x7f) as u8 == v) by (bit_vector);
        assert(bytes.drop_last() =~= Seq::empty());
        assert(bytes.last() == v);
        assert(colons(bytes.drop_last()) == 0);
        assert(c == v as char);
    } else {
        assert((0xc0u8 | ((v >> 6) & 0x1f) as u8) != 0x3au8) by (bit_vector);
        assert((0xe0u8 | ((v >> 12) & 0x0f) as u8) != 0x3au8) by (bit_vector);
        assert((0xf0u8 | ((v >> 18) & 0x7) as u8) != 0x3au8) by (bit_vector);
        assert((0x80u8 | (v & 0x3f) as u8) != 0x3au8) by (bit_vector);
        assert((0x80u8 | ((v >> 6) & 0x3f) as u8) != 0x3au8) by (bit_vector);
        assert((0x80u8 | ((v >> 12) & 0x3f) as u8) != 0x3au8) by (bit_vector);
        lemma_no_colons(bytes);
    }
}

/// The first character counts before the others.
proof fn lemma_occurrences_first(text: Seq<char>, c: char)
    requires
        text.len() > 0,
    ensures
        occurrences(text, c) == occurrences(text.drop_first(), c) + if text[0] == c {
            1nat
        } else {
            0
        },
    decreases text.len(),
{
    if text.len() == 1 {
        assert(text.drop_last() =~= Seq::empty());
        assert(text.drop_first() =~= Seq::empty());
    } else {
        lemma_occurrences_first(text.drop_last(), c);
        assert(text.drop_last().drop_first() =~= text.drop_first().drop_last());
    }
}

/// A text has as many colons as its encoding.
proof fn lemma_colons_encoded(text: Seq<char>)
    ensures
        colons(encode_utf8(text)) == occurrences(text, ':'),
    decreases text.len(),
{
    if text.len() > 0 {
        lemma_colons_encoded(text.drop_first());
        lemma_colon_of(text[0]);
        lemma_colons_add(encode_scalar(text[0] as u32), encode_utf8(text.drop_first()));
        lemma_occurrences_first(text, ':');
    }
}

/// A key of text has one segment more than it has colons, no segment has a
/// colon in it, and the segments with colons between them are the key.
pub proof fn every_colon_of_a_key_cuts(key: Seq<u8>)
    requires
        valid_utf8(key),
    ensures
        path(key).len() == colons(key) + 1,
        forall|i: int| 0 <= i < path(key).len() ==> !(#[trigger] path(key)[i]).contains(':'),
        encode_utf8(joined(path(key), seq![':'])) == key,
{
    every_separator_cuts(decode_utf8(key), ':');
    splitting_loses_nothing(decode_utf8(key), ':');
    decode_utf8_encode_utf8(key);
    lemma_colons_encoded(decode_utf8(key));
}

/// A key split on its colons, with empty segments kept.
///
/// `user::1` has an empty middle segment and it is a real one: the key is not
/// `user:1` and must not be drawn as though it were. A key that is not UTF-8
/// has no segments: it is drawn from its bytes rather than regrouped on colons
/// that may be inside a character.
pub fn segments(key: &[u8]) -> (pieces: Vec<String>)
    ensures
        texts(pieces@) == path(key@),
{
    match decoded(key) {
        Some(text) => split_on(text.as_str(), ':'),
        None => {
            let none: Vec<String> = Vec::new();
            assert(texts(none@) =~= path(key@));
            none
        },
    }
}

/// Whether one key is listed strictly before another: by path, and by bytes
/// where the paths are the same.
pub open spec fn key_before(x: KeyInfo, y: KeyInfo) -> bool {
    if path(x.key@) != path(y.key@) {
        path_before(path(x.key@), path(y.key@))
    } else {
        bytes_before(x.key@, y.key@)
    }
}

/// Where a key goes among keys already in order: after everything that does
/// not come after it.
pub open spec fn place(list: Seq<KeyInfo>, key: KeyInfo) -> int
    decreases list.len(),
{
    if list.len() == 0 || !key_before(key, list.last()) {
        list.len() as int
    } else {
        place(list.drop_last(), key)
    }
}

/// The keys in the order they are drawn in. Keys that are neither before nor
/// after one another stay in the order they came in.
pub open spec fn in_order(keys: Seq<KeyInfo>) -> Seq<KeyInfo>
    decreases keys.len(),
{
    if keys.len() == 0 {
        keys
    } else {
        let list = in_order(keys.drop_last());
        list.insert(place(list, keys.last()), keys.last())
    }
}

/// Whether no key of a list comes before one that stands in front of it.
pub open spec fn ordered(list: Seq<KeyInfo>) -> bool {
    forall|i: int, j: int| 0 <= i < j < list.len() ==> !key_before(#[trigger] list[j], #[trigger] list[i])
}

/// No key comes before itself, no two come before each other, and whatever is
/// before a key is before everything that is not before that key.
proof fn lemma_key_order(x: KeyInfo, a: KeyInfo, b: KeyInfo)
    ensures
        !key_before(x, x),
        !(key_before(x, a) && key_before(a, x)),
        key_before(x, a) && !key_before(b, a) ==> key_before(x, b),
{
    lemma_before_irreflexive(octets(x.key@));
    lemma_path_irreflexive(path(x.key@));
    if key_before(x, a) && key_before(a, x) {
        if path(x.key@) != path(a.key@) {
            lemma_path_transitive(path(x.key@), path(a.key@), path(x.key@));
        } else {
            lemma_before_transitive(octets(x.key@), octets(a.key@), octets(x.key@));
        }
    }
    if key_before(x, a) && !key_before(b, a) {
        let (px, pa, pb) = (path(x.key@), path(a.key@), path(b.key@));
        if pa != pb {
            lemma_path_total(pa, pb);
            assert(path_before(pa, pb));
            if px != pa {
                lemma_path_transitive(px, pa, pb);
                if px == pb {
                    lemma_path_irreflexive(px);
                }
            }
        } else if px == pa {
            let (ox, oa, ob) = (octets(x.key@), octets(a.key@), octets(b.key@));
            if oa != ob {
                lemma_before_total(oa, ob);
                lemma_before_transitive(ox, oa, ob);
            }
        }
    }
}

/// The place of a key is where the keys that come after it begin.
proof fn lemma_place(list: Seq<KeyInfo>, key: KeyInfo, at: int)
    requires
        0 <= at <= list.len(),
        forall|i: int| 0 <= i < at ==> !key_before(key, #[trigger] list[i]),
        forall|i: int| at <= i < list.len() ==> key_before(key, #[trigger] list[i]),
    ensures
        place(list, key) == at,
    decreases list.len(),
{
    if at < list.len() {
        lemma_place(list.drop_last(), key, at);
    }
}

proof fn lemma_place_bounds(list: Seq<KeyInfo>, key: KeyInfo)
    requires
        ordered(list),
    ensures
        0 <= place(list, key) <= list.len(),
        forall|i: int| 0 <= i < place(list, key) ==> !key_before(key, #[trigger] list[i]),
        forall|i: int| place(list, key) <= i < list.len() ==> key_before(key, #[trigger] list[i]),
    decreases list.len(),
{
    if list.len() > 0 {
        if key_before(key, list.last()) {
            lemma_place_bounds(list.drop_last(), key);
            assert forall|i: int| 0 <= i < place(list, key) implies !key_before(
                key,
                #[trigger] list[i],
            ) by {
                assert(list[i] == list.drop_last()[i]);
            }
            assert forall|i: int| place(list, key) <= i < list.len() implies key_before(
                key,
                #[trigger] list[i],
            ) by {
                if i < list.len() - 1 {
                    assert(list[i] == list.drop_last()[i]);
                }
            }
        } else {
            assert forall|i: int| 0 <= i < list.len() implies !key_before(
                key,
                #[trigger] list[i],
            ) by {
                if i < list.len() - 1 && key_before(key, list[i]) {
                    lemma_key_order(key, list[i], list.last());
                }
            }
        }
    }
}

/// The keys are drawn in order, and they are the keys there were: none is
/// lost, none is repeated.
pub proof fn keys_are_drawn_in_order(keys: Seq<KeyInfo>)
    ensures
        ordered(in_order(keys)),
        in_order(keys).to_multiset() == keys.to_multiset(),
        in_order(keys).len() == keys.len(),
    decreases keys.len(),
{
    broadcast use vstd::seq_lib::group_to_multiset_ensures;

    if keys.len() > 0 {
        let front = keys.drop_last();
        let key = keys.last();
        keys_are_drawn_in_order(front);
        let list = in_order(front);
        lemma_place_bounds(list, key);
        let at = place(list, key);
        let all = list.insert(at, key);
        assert forall|i: int, j: int| 0 <= i < j < all.len() implies !key_before(
            #[trigger] all[j],
            #[trigger] all[i],
        ) by {
            if j == at {
                assert(all[i] == list[i]);
            } else if i == at {
                assert(all[j] == list[j - 1]);
                lemma_key_order(key, list[j - 1], key);
            } else {
                let x = if i < at {
                    i
                } else {
                    i - 1
                };
                let y = if j < at {
                    j
                } else {
                    j - 1
                };
                assert(all[i] == list[x]);
                assert(all[j] == list[y]);
            }
        }
        assert(keys =~= front.push(key));
    }
}

/// The segments of a path, unpacked.
pub open spec fn unpacked(list: Seq<Vec<char>>) -> Seq<Seq<char>> {
    Seq::new(list.len(), |i: int| list[i]@)
}

/// The segments of a key, unpacked.
fn path_of(key: &[u8]) -> (pieces: Vec<Vec<char>>)
    ensures
        unpacked(pieces@) == path(key@),
{
    let names = segments(key);
    let mut pieces: Vec<Vec<char>> = Vec::new();
    let mut at: usize = 0;
    while at < names.len()
        invariant
            at <= names@.len(),
            pieces@.len() == at,
            forall|i: int| 0 <= i < at ==> (#[trigger] pieces@[i])@ == names@[i]@,
        decreases names@.len() - at,
    {
        pieces.push(chars_of(names[at].as_str()));
        at += 1;
    }
    assert(unpacked(pieces@) =~= texts(names@));
    pieces
}

/// Whether two unpacked texts are the same.
fn same_chars(a: &Vec<char>, b: &Vec<char>) -> (answer: bool)
    ensures
        answer == (a@ == b@),
{
    if a.len() != b.len() {
        return false;
    }
    let mut at: usize = 0;
    while at < a.len()
        invariant
            at <= a@.len() == b@.len(),
            forall|i: int| 0 <= i < at ==> a@[i] == b@[i],
        decreases a@.len() - at,
    {
        if a[at] != b[at] {
            assert(a@[at as int] != b@[at as int]);
            return false;
        }
        at += 1;
    }
    assert(a@ =~= b@);
    true
}

/// How many segments two paths have in common from the start.
pub open spec fn shared(a: Seq<Seq<char>>, b: Seq<Seq<char>>) -> nat
    decreases a.len(),
{
    if a.len() == 0 || b.len() == 0 || a[0] != b[0] {
        0
    } else {
        1 + shared(a.drop_first(), b.drop_first())
    }
}

/// What two paths share is the longest prefix they agree on.
proof fn lemma_shared(a: Seq<Seq<char>>, b: Seq<Seq<char>>, n: int)
    requires
        0 <= n <= a.len(),
        n <= b.len(),
        forall|i: int| 0 <= i < n ==> a[i] == b[i],
        n < a.len() && n < b.len() ==> a[n] != b[n],
    ensures
        shared(a, b) == n,
    decreases n,
{
    if n > 0 {
        let (x, y) = (a.drop_first(), b.drop_first());
        assert forall|i: int| 0 <= i < n - 1 implies x[i] == y[i] by {
            assert(x[i] == a[i + 1]);
            assert(y[i] == b[i + 1]);
        }
        lemma_shared(x, y, n - 1);
    }
}

/// How many of the first `limit` segments two paths agree on from the start.
fn agreeing(a: &Vec<Vec<char>>, a_limit: usize, b: &Vec<Vec<char>>, b_limit: usize) -> (n: usize)
    requires
        a_limit <= a@.len(),
        b_limit <= b@.len(),
    ensures
        n <= a_limit,
        n <= b_limit,
        n == shared(unpacked(a@).take(a_limit as int), unpacked(b@).take(b_limit as int)),
        forall|i: int| 0 <= i < n ==> unpacked(a@)[i] == unpacked(b@)[i],
        n < a_limit && n < b_limit ==> unpacked(a@)[n as int] != unpacked(b@)[n as int],
{
    let mut n: usize = 0;
    while n < a_limit && n < b_limit && same_chars(&a[n], &b[n])
        invariant
            n <= a_limit <= a@.len(),
            n <= b_limit <= b@.len(),
            forall|i: int| 0 <= i < n ==> unpacked(a@)[i] == unpacked(b@)[i],
        decreases a_limit - n,
    {
        n += 1;
    }
    proof {
        lemma_shared(
            unpacked(a@).take(a_limit as int),
            unpacked(b@).take(b_limit as int),
            n as int,
        );
    }
    n
}

/// Skipping what two paths share does not change which comes first.
proof fn lemma_path_skip(a: Seq<Seq<char>>, b: Seq<Seq<char>>, n: int)
    requires
        0 <= n <= a.len(),
        n <= b.len(),
        forall|i: int| 0 <= i < n ==> a[i] == b[i],
    ensures
        path_before(a, b) == path_before(a.skip(n), b.skip(n)),
    decreases n,
{
    if n == 0 {
        assert(a.skip(0) =~= a);
        assert(b.skip(0) =~= b);
    } else {
        let (x, y) = (a.drop_first(), b.drop_first());
        assert forall|i: int| 0 <= i < n - 1 implies x[i] == y[i] by {
            assert(x[i] == a[i + 1]);
            assert(y[i] == b[i + 1]);
        }
        lemma_path_skip(x, y, n - 1);
        assert(x.skip(n - 1) =~= a.skip(n));
        assert(y.skip(n - 1) =~= b.skip(n));
    }
}

/// Whether one key is listed strictly before another.
fn key_is_before(
    x: &KeyInfo,
    x_path: &Vec<Vec<char>>,
    y: &KeyInfo,
    y_path: &Vec<Vec<char>>,
) -> (answer: bool)
    requires
        unpacked(x_path@) == path(x.key@),
        unpacked(y_path@) == path(y.key@),
    ensures
        answer == key_before(*x, *y),
{
    let n = agreeing(x_path, x_path.len(), y_path, y_path.len());
    let ghost a = unpacked(x_path@);
    let ghost b = unpacked(y_path@);
    proof {
        lemma_path_skip(a, b, n as int);
        assert(a.take(a.len() as int) =~= a);
        assert(b.take(b.len() as int) =~= b);
    }
    if n == x_path.len() && n == y_path.len() {
        assert(a =~= b);
        bytes_are_before(&x.key, &y.key)
    } else if n == y_path.len() {
        assert(a.len() != b.len());
        assert(b.skip(n as int).len() == 0);
        false
    } else if n == x_path.len() {
        assert(a.len() != b.len());
        true
    } else {
        assert(a[n as int] != b[n as int]);
        assert(a.skip(n as int)[0] == a[n as int]);
        assert(b.skip(n as int)[0] == b[n as int]);
        text_is_before(&x_path[n], &y_path[n])
    }
}

/// The keys that a list of places picks out.
pub open spec fn picked(keys: Seq<KeyInfo>, places: Seq<usize>) -> Seq<KeyInfo> {
    Seq::new(places.len(), |i: int| keys[places[i] as int])
}

/// The places of the keys, in the order they are drawn in.
fn sorted(keys: &[KeyInfo], paths: &Vec<Vec<Vec<char>>>) -> (places: Vec<usize>)
    requires
        paths@.len() == keys@.len(),
        forall|i: int|
            0 <= i < keys@.len() ==> unpacked((#[trigger] paths@[i])@) == path(keys@[i].key@),
    ensures
        picked(keys@, places@) == in_order(keys@),
        forall|i: int| 0 <= i < places@.len() ==> (#[trigger] places@[i]) < keys@.len(),
{
    let mut places: Vec<usize> = Vec::new();
    let mut at: usize = 0;
    assert(picked(keys@, places@) =~= in_order(keys@.take(0)));
    while at < keys.len()
        invariant
            at <= keys@.len(),
            paths@.len() == keys@.len(),
            forall|i: int|
                0 <= i < keys@.len() ==> unpacked((#[trigger] paths@[i])@) == path(keys@[i].key@),
            picked(keys@, places@) == in_order(keys@.take(at as int)),
            forall|i: int| 0 <= i < places@.len() ==> (#[trigger] places@[i]) < keys@.len(),
        decreases keys@.len() - at,
    {
        let ghost list = picked(keys@, places@);
        let ghost key = keys@[at as int];
        proof {
            keys_are_drawn_in_order(keys@.take(at as int));
        }
        let mut from: usize = 0;
        let mut to: usize = places.len();
        while from < to
            invariant
                from <= to <= places@.len(),
                at < keys@.len(),
                paths@.len() == keys@.len(),
                forall|i: int|
                    0 <= i < keys@.len() ==> unpacked((#[trigger] paths@[i])@) == path(
                        keys@[i].key@,
                    ),
                forall|i: int| 0 <= i < places@.len() ==> (#[trigger] places@[i]) < keys@.len(),
                list == picked(keys@, places@),
                key == keys@[at as int],
                ordered(list),
                forall|i: int| 0 <= i < from ==> !key_before(key, #[trigger] list[i]),
                forall|i: int| to <= i < list.len() ==> key_before(key, #[trigger] list[i]),
            decreases to - from,
        {
            let mid: usize = from + (to - from) / 2;
            let other: usize = places[mid];
            assert(list[mid as int] == keys@[other as int]);
            if key_is_before(&keys[at], &paths[at], &keys[other], &paths[other]) {
                assert forall|i: int| mid <= i < list.len() implies key_before(
                    key,
                    #[trigger] list[i],
                ) by {
                    if mid < i {
                        lemma_key_order(key, list[mid as int], list[i]);
                    }
                }
                to = mid;
            } else {
                assert forall|i: int| 0 <= i <= mid implies !key_before(
                    key,
                    #[trigger] list[i],
                ) by {
                    if i < mid && key_before(key, list[i]) {
                        lemma_key_order(key, list[i], list[mid as int]);
                    }
                }
                from = mid + 1;
            }
        }
        proof {
            lemma_place(list, key, from as int);
        }
        places.insert(from, at);
        at += 1;
        assert(keys@.take(at as int).drop_last() =~= keys@.take(at - 1));
        assert(picked(keys@, places@) =~= list.insert(from as int, key));
    }
    assert(keys@.take(at as int) =~= keys@);
    places
}

/// The folders a key is under: its path without the last segment.
pub open spec fn folders(key: Seq<u8>) -> Seq<Seq<char>> {
    if path(key).len() == 0 {
        Seq::empty()
    } else {
        path(key).drop_last()
    }
}

/// Whether a key is under a folder.
pub open spec fn is_under(key: Seq<u8>, folder: Seq<Seq<char>>) -> bool {
    folder.len() < path(key).len() && path(key).take(folder.len() as int) == folder
}

/// How many of the keys are under a folder.
pub open spec fn under(keys: Seq<KeyInfo>, folder: Seq<Seq<char>>) -> nat {
    keys.filter(|info: KeyInfo| is_under(info.key@, folder)).len()
}

/// A depth so many levels below another, as far as depths go.
pub open spec fn nested(depth: nat, levels: nat) -> nat {
    if depth + levels <= usize::MAX {
        depth + levels
    } else {
        usize::MAX as nat
    }
}

/// The row of the folder that ends with segment `cut` of a path.
pub open spec fn folder_row(
    keys: Seq<KeyInfo>,
    path: Seq<Seq<char>>,
    cut: int,
    depth: nat,
) -> Row {
    group(
        nested(depth, cut as nat),
        NodeKind::KeyFolder,
        path[cut],
        counted(under(keys, path.take(cut + 1)), "key"@, "keys"@),
    )
}

/// The rows of the folders from segment `from` of a path to the last but one.
pub open spec fn opened(
    keys: Seq<KeyInfo>,
    path: Seq<Seq<char>>,
    from: int,
    to: int,
    depth: nat,
) -> Seq<Row> {
    Seq::new((to - from) as nat, |i: int| folder_row(keys, path, from + i, depth))
}

/// The name on a key's row: its last segment, and what its bytes are drawn as
/// when they are not text.
pub open spec fn leaf_name(info: KeyInfo) -> Seq<char> {
    if path(info.key@).len() == 0 {
        info.drawn@
    } else {
        path(info.key@).last()
    }
}

/// A key's own row, under its folders.
pub open spec fn leaf(info: KeyInfo, depth: nat) -> Row {
    Row {
        meta: expiry(info.ttl, info.time_left@),
        target: Some(Goal::Key(info.key@, info.kind)),
        ..plain(nested(depth, folders(info.key@).len()), NodeKind::Key, leaf_name(info))
    }
}

/// The rows of keys that are in order: each key's own row, and in front of it
/// the folders that the key before it was not under.
pub open spec fn key_rows(keys: Seq<KeyInfo>, list: Seq<KeyInfo>, depth: nat) -> Seq<Row>
    decreases list.len(),
{
    if list.len() == 0 {
        Seq::empty()
    } else {
        let info = list.last();
        let mine = folders(info.key@);
        let open = if list.len() == 1 {
            Seq::empty()
        } else {
            folders(list[list.len() - 2].key@)
        };
        key_rows(keys, list.drop_last(), depth) + opened(
            keys,
            path(info.key@),
            shared(open, mine) as int,
            mine.len() as int,
            depth,
        ) + seq![leaf(info, depth)]
    }
}

/// How many of the keys are under the folder that the first `cut` segments of
/// a path name.
fn count_under(paths: &Vec<Vec<Vec<char>>>, keys: &[KeyInfo], mine: &Vec<Vec<char>>, cut: usize) -> (n:
    usize)
    requires
        paths@.len() == keys@.len(),
        forall|i: int|
            0 <= i < keys@.len() ==> unpacked((#[trigger] paths@[i])@) == path(keys@[i].key@),
        cut <= mine@.len(),
    ensures
        n == under(keys@, unpacked(mine@).take(cut as int)),
{
    let ghost folder = unpacked(mine@).take(cut as int);
    let ghost keep = |info: KeyInfo| is_under(info.key@, folder);
    let mut n: usize = 0;
    let mut at: usize = 0;
    proof {
        lemma_filter_none(keys@, keep);
    }
    while at < keys.len()
        invariant
            at <= keys@.len(),
            n <= at,
            paths@.len() == keys@.len(),
            forall|i: int|
                0 <= i < keys@.len() ==> unpacked((#[trigger] paths@[i])@) == path(keys@[i].key@),
            cut <= mine@.len(),
            folder == unpacked(mine@).take(cut as int),
            keep == (|info: KeyInfo| is_under(info.key@, folder)),
            n == keys@.take(at as int).filter(keep).len(),
        decreases keys@.len() - at,
    {
        let ghost theirs = path(keys@[at as int].key@);
        assert(unpacked(paths@[at as int]@) == theirs);
        let within = if cut < paths[at].len() {
            let agreed = agreeing(&paths[at], cut, mine, cut);
            proof {
                if agreed == cut {
                    assert(theirs.take(cut as int) =~= folder);
                } else {
                    assert(theirs.take(cut as int)[agreed as int] != folder[agreed as int]);
                }
            }
            agreed == cut
        } else {
            false
        };
        proof {
            lemma_filter_step(keys@, keep, at as int);
            assert(within == keep(keys@[at as int]));
        }
        if within {
            n += 1;
        }
        at += 1;
    }
    proof {
        lemma_filter_all(keys@, keep);
    }
    n
}

/// Add the keys, folded into folders on their colons.
///
/// One pass over the keys in order: the only state needed is what the previous
/// key's path was, and the folders to open are the segments where the two
/// paths stop agreeing.
pub fn push_keys(nodes: &mut Vec<TreeNode>, keys: &[KeyInfo], depth: usize)
    ensures
        rows(final(nodes)@) == rows(old(nodes)@) + key_rows(
            keys@,
            in_order(keys@),
            depth as nat,
        ),
        final(nodes)@.len() >= old(nodes)@.len(),
        forall|i: int| 0 <= i < old(nodes)@.len() ==> final(nodes)@[i] == old(nodes)@[i],
{
    let mut paths: Vec<Vec<Vec<char>>> = Vec::new();
    let mut at: usize = 0;
    while at < keys.len()
        invariant
            at <= keys@.len(),
            paths@.len() == at,
            forall|i: int|
                0 <= i < at ==> unpacked((#[trigger] paths@[i])@) == path(keys@[i].key@),
        decreases keys@.len() - at,
    {
        paths.push(path_of(keys[at].key.as_slice()));
        at += 1;
    }
    let places = sorted(keys, &paths);
    let ghost list = in_order(keys@);
    let ghost start = rows(nodes@);
    let mut at: usize = 0;
    assert(start + key_rows(keys@, list.take(0), depth as nat) =~= start);
    while at < places.len()
        invariant
            at <= places@.len() == list.len(),
            list == in_order(keys@),
            list == picked(keys@, places@),
            forall|i: int| 0 <= i < places@.len() ==> (#[trigger] places@[i]) < keys@.len(),
            paths@.len() == keys@.len(),
            forall|i: int|
                0 <= i < keys@.len() ==> unpacked((#[trigger] paths@[i])@) == path(keys@[i].key@),
            rows(nodes@) == start + key_rows(keys@, list.take(at as int), depth as nat),
            nodes@.len() >= old(nodes)@.len(),
            forall|i: int| 0 <= i < old(nodes)@.len() ==> nodes@[i] == old(nodes)@[i],
        decreases places@.len() - at,
    {
        let place: usize = places[at];
        let info = &keys[place];
        let mine = &paths[place];
        let ghost trail = path(info.key@);
        assert(list[at as int] == *info);
        assert(unpacked(mine@) == trail);
        let limit: usize = if mine.len() == 0 {
            0
        } else {
            mine.len() - 1
        };
        assert(trail.take(limit as int) =~= folders(info.key@));
        let common: usize = if at == 0 {
            assert(shared(Seq::empty(), folders(info.key@)) == 0);
            0
        } else {
            let previous = &paths[places[at - 1]];
            assert(list[at - 1] == keys@[places@[at - 1] as int]);
            let before: usize = if previous.len() == 0 {
                0
            } else {
                previous.len() - 1
            };
            assert(unpacked(previous@).take(before as int) =~= folders(list[at - 1].key@));
            agreeing(previous, before, mine, limit)
        };
        let ghost base = rows(nodes@);
        let mut cut: usize = common;
        assert(base + opened(keys@, trail, common as int, common as int, depth as nat) =~= base);
        while cut < limit
            invariant
                common <= cut <= limit,
                place < keys@.len(),
                mine@ == paths@[place as int]@,
                limit <= mine@.len(),
                limit > 0 ==> limit < mine@.len(),
                trail == unpacked(mine@),
                trail == path(keys@[place as int].key@),
                paths@.len() == keys@.len(),
                forall|i: int|
                    0 <= i < keys@.len() ==> unpacked((#[trigger] paths@[i])@) == path(
                        keys@[i].key@,
                    ),
                rows(nodes@) == base + opened(
                    keys@,
                    trail,
                    common as int,
                    cut as int,
                    depth as nat,
                ),
                nodes@.len() >= old(nodes)@.len(),
                forall|i: int| 0 <= i < old(nodes)@.len() ==> nodes@[i] == old(nodes)@[i],
            decreases limit - cut,
        {
            let count = count_under(&paths, keys, mine, cut + 1);
            let name = crate::text::text_of(&mine[cut], 0, mine[cut].len());
            assert(name@ =~= trail[cut as int]);
            let ghost had = rows(nodes@);
            nodes.push(
                TreeNode::new(depth.saturating_add(cut), NodeKind::KeyFolder, name).meta(
                    Some(plural(count, "key", "keys")),
                ).expandable(),
            );
            assert(rows(nodes@) =~= had.push(folder_row(keys@, trail, cut as int, depth as nat)));
            cut += 1;
            assert(rows(nodes@) =~= base + opened(
                keys@,
                trail,
                common as int,
                cut as int,
                depth as nat,
            ));
        }
        let ghost had = rows(nodes@);
        let name = if mine.len() == 0 {
            info.drawn.clone()
        } else {
            let last = &mine[mine.len() - 1];
            let name = crate::text::text_of(last, 0, last.len());
            assert(name@ =~= trail.last());
            name
        };
        nodes.push(
            TreeNode::new(depth.saturating_add(limit), NodeKind::Key, name).key(&info.key, &info.kind).meta(
                ttl_meta(info.ttl, &info.time_left),
            ),
        );
        assert(rows(nodes@) =~= had + seq![leaf(*info, depth as nat)]);
        at += 1;
        proof {
            let now = list.take(at as int);
            assert(now.drop_last() =~= list.take(at - 1));
            assert(now.last() == *info);
            if at > 1 {
                assert(now[now.len() - 2] == list[at - 2]);
            }
            assert(rows(nodes@) =~= start + key_rows(keys@, now, depth as nat));
        }
    }
    assert(list.take(at as int) =~= list);
}

} // verus!
