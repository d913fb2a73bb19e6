//! The stored form of the tables: rows of plain values, and their bytes in
//! the BARE encoding.

use vstd::prelude::*;
use crate::corpus::{Keystroke, KeystrokeView};
use crate::heatmap::{distinct_keys, Heatmap, TableKey};
use crate::key::Key;

verus! {

/// A keystroke as it is stored: the number of its key, and its text.
pub type PlainKeystroke = (u64, String);

/// A row of the table of keystrokes as it is stored.
pub type UnigramRow = (PlainKeystroke, u32);

/// A row of the table of pairs as it is stored, the older keystroke first.
pub type BigramRow = ((PlainKeystroke, PlainKeystroke), u32);

/// A row of the table of triples as it is stored, the oldest keystroke first.
pub type TrigramRow = ((PlainKeystroke, PlainKeystroke, PlainKeystroke), u32);

/// Why stored bytes gave no store.
#[derive(Clone, Copy, Debug, PartialEq, Eq, Structural)]
pub enum DecodeError {
    /// The bytes are not the encoding of a store's tables.
    Malformed,
    /// A row names a key by a number that stands for no key.
    UnknownKey,
    /// Two rows of one table have the same key.
    DuplicateKey,
}

/// Why a store gave no bytes.
#[derive(Clone, Copy, Debug, PartialEq, Eq, Structural)]
pub enum PersistError {
    /// The encoder refused the tables.
    Encoding,
}

/// A key of a table that has a stored form made of plain values.
pub trait PlainKey: TableKey {
    /// The stored form.
    type Plain: DeepView;

    /// The stored form of a key.
    spec fn out(key: Self::V) -> <Self::Plain as DeepView>::V;

    /// Whether a stored form stands for a key.
    spec fn known(plain: <Self::Plain as DeepView>::V) -> bool;

    /// The key that a stored form stands for, where it is `known`.
    spec fn back(plain: <Self::Plain as DeepView>::V) -> Self::V;

    /// The stored form of a key stands for that key.
    proof fn lemma_round_trip(key: Self::V)
        ensures
            Self::known(Self::out(key)),
            Self::back(Self::out(key)) == key,
    ;

    /// The stored form of the key.
    fn to_plain(&self) -> (plain: Self::Plain)
        ensures
            plain.deep_view() == Self::out(self@),
    ;

    /// The key that `plain` stands for, if it stands for one.
    fn from_plain(plain: &Self::Plain) -> (key: Option<Self>)
        ensures
            match key {
                Some(k) => Self::known(plain.deep_view()) && k@ == Self::back(plain.deep_view()),
                None => !Self::known(plain.deep_view()),
            },
    ;
}

impl PlainKey for Keystroke {
    type Plain = PlainKeystroke;

    open spec fn out(key: KeystrokeView) -> (u64, Seq<char>) {
        (key.key.spec_code(), key.interpreted)
    }

    open spec fn known(plain: (u64, Seq<char>)) -> bool {
        Key::is_code(plain.0)
    }

    open spec fn back(plain: (u64, Seq<char>)) -> KeystrokeView {
        KeystrokeView { key: Key::of_code(plain.0), interpreted: plain.1 }
    }

    proof fn lemma_round_trip(key: KeystrokeView) {
        Key::lemma_code_round_trip(key.key);
    }

    fn to_plain(&self) -> (plain: PlainKeystroke) {
        (self.key.code(), self.interpreted.clone())
    }

    fn from_plain(plain: &PlainKeystroke) -> (key: Option<Keystroke>) {
        match Key::from_code(plain.0) {
            Some(k) => Some(Keystroke { key: k, interpreted: plain.1.clone() }),
            None => None,
        }
    }
}

impl<A: PlainKey, B: PlainKey> PlainKey for (A, B) {
    type Plain = (A::Plain, B::Plain);

    open spec fn out(key: (A::V, B::V)) -> (
        <A::Plain as DeepView>::V,
        <B::Plain as DeepView>::V,
    ) {
        (A::out(key.0), B::out(key.1))
    }

    open spec fn known(plain: (<A::Plain as DeepView>::V, <B::Plain as DeepView>::V)) -> bool {
        A::known(plain.0) && B::known(plain.1)
    }

    open spec fn back(plain: (<A::Plain as DeepView>::V, <B::Plain as DeepView>::V)) -> (
        A::V,
        B::V,
    ) {
        (A::back(plain.0), B::back(plain.1))
    }

    proof fn lemma_round_trip(key: (A::V, B::V)) {
        A::lemma_round_trip(key.0);
        B::lemma_round_trip(key.1);
    }

    fn to_plain(&self) -> (plain: (A::Plain, B::Plain)) {
        (self.0.to_plain(), self.1.to_plain())
    }

    fn from_plain(plain: &(A::Plain, B::Plain)) -> (key: Option<(A, B)>) {
        match A::from_plain(&plain.0) {
            Some(a) => match B::from_plain(&plain.1) {
                Some(b) => Some((a, b)),
                None => None,
            },
            None => None,
        }
    }
}

impl<A: PlainKey, B: PlainKey, C: PlainKey> PlainKey for (A, B, C) {
    type Plain = (A::Plain, B::Plain, C::Plain);

    open spec fn out(key: (A::V, B::V, C::V)) -> (
        <A::Plain as DeepView>::V,
        <B::Plain as DeepView>::V,
        <C::Plain as DeepView>::V,
    ) {
        (A::out(key.0), B::out(key.1), C::out(key.2))
    }

    open spec fn known(
        plain: (<A::Plain as DeepView>::V, <B::Plain as DeepView>::V, <C::Plain as DeepView>::V),
    ) -> bool {
        A::known(plain.0) && B::known(plain.1) && C::known(plain.2)
    }

    open spec fn back(
        plain: (<A::Plain as DeepView>::V, <B::Plain as DeepView>::V, <C::Plain as DeepView>::V),
    ) -> (A::V, B::V, C::V) {
        (A::back(plain.0), B::back(plain.1), C::back(plain.2))
    }

    proof fn lemma_round_trip(key: (A::V, B::V, C::V)) {
        A::lemma_round_trip(key.0);
        B::lemma_round_trip(key.1);
        C::lemma_round_trip(key.2);
    }

    fn to_plain(&self) -> (plain: (A::Plain, B::Plain, C::Plain)) {
        (self.0.to_plain(), self.1.to_plain(), self.2.to_plain())
    }

    fn from_plain(plain: &(A::Plain, B::Plain, C::Plain)) -> (key: Option<(A, B, C)>) {
        match A::from_plain(&plain.0) {
            Some(a) => match B::from_plain(&plain.1) {
                Some(b) => match C::from_plain(&plain.2) {
                    Some(c) => Some((a, b, c)),
                    None => None,
                },
                None => None,
            },
            None => None,
        }
    }
}

/// The stored form of the rows of a table.
pub open spec fn rows_out<K: PlainKey>(rows: Seq<(K::V, u32)>) -> Seq<
    (<K::Plain as DeepView>::V, u32),
> {
    rows.map_values(|r: (K::V, u32)| (K::out(r.0), r.1))
}

/// Whether each of the stored rows stands for a row: the stored form of its
/// key stands for a key.
pub open spec fn rows_known<K: PlainKey>(stored: Seq<(<K::Plain as DeepView>::V, u32)>) -> bool {
    forall|i: int| 0 <= i < stored.len() ==> K::known((#[trigger] stored[i]).0)
}

/// The rows that stored rows stand for, where they are `rows_known`.
pub open spec fn rows_back<K: PlainKey>(stored: Seq<(<K::Plain as DeepView>::V, u32)>) -> Seq<
    (K::V, u32),
> {
    stored.map_values(|r: (<K::Plain as DeepView>::V, u32)| (K::back(r.0), r.1))
}

/// The stored form of rows stands for those rows.
pub proof fn lemma_rows_round_trip<K: PlainKey>(rows: Seq<(K::V, u32)>)
    ensures
        rows_known::<K>(rows_out::<K>(rows)),
        rows_back::<K>(rows_out::<K>(rows)) == rows,
{
    assert forall|i: int| 0 <= i < rows.len() implies K::known(
        (#[trigger] rows_out::<K>(rows)[i]).0,
    ) && rows_back::<K>(rows_out::<K>(rows))[i] == rows[i] by {
        K::lemma_round_trip(rows[i].0);
    }
    assert(rows_back::<K>(rows_out::<K>(rows)) =~= rows);
}

/// The rows of `table` in their stored form, in the table's order.
pub fn table_out<K: PlainKey>(table: &Heatmap<K>) -> (stored: Vec<(K::Plain, u32)>)
    ensures
        stored.deep_view() == rows_out::<K>(table.rows()),
{
    let mut stored: Vec<(K::Plain, u32)> = Vec::new();
    let n = table.len();
    let mut i: usize = 0;
    while i < n
        invariant
            i <= n,
            n == table.rows().len(),
            stored@.len() == i,
            stored.deep_view() == rows_out::<K>(table.rows().take(i as int)),
        decreases n - i,
    {
        let ghost before = stored.deep_view();
        let plain = table.key_at(i).to_plain();
        let count = table.count_at(i);
        stored.push((plain, count));
        i = i + 1;
        proof {
            let after = rows_out::<K>(table.rows().take(i as int));
            assert(stored.deep_view().len() == after.len());
            assert forall|j: int| 0 <= j < i implies stored.deep_view()[j] == after[j] by {
                if j < i - 1 {
                    assert(stored.deep_view()[j] == before[j]);
                    assert(table.rows().take(i - 1)[j] == table.rows().take(i as int)[j]);
                } else {
                    assert(stored@[j] == (plain, count));
                }
            }
            assert(stored.deep_view() =~= after);
        }
    }
    assert(table.rows().take(n as int) == table.rows());
    stored
}

/// Whether every stored row stands for a row.
pub fn check_known<K: PlainKey>(stored: &Vec<(K::Plain, u32)>) -> (known: bool)
    ensures
        known == rows_known::<K>(stored.deep_view()),
{
    let mut i: usize = 0;
    while i < stored.len()
        invariant
            i <= stored.len(),
            forall|j: int| 0 <= j < i ==> K::known((#[trigger] stored.deep_view()[j]).0),
        decreases stored.len() - i,
    {
        if K::from_plain(&stored[i].0).is_none() {
            assert(!K::known(stored.deep_view()[i as int].0));
            return false;
        }
        i = i + 1;
    }
    true
}

/// The table that the stored rows spell out, row for row in their order;
/// `None` where two of them have the same key.
pub fn table_in<K: PlainKey>(stored: &Vec<(K::Plain, u32)>) -> (table: Option<Heatmap<K>>)
    requires
        rows_known::<K>(stored.deep_view()),
    ensures
        match table {
            Some(t) => t.wf() && t.rows() == rows_back::<K>(stored.deep_view()),
            None => !distinct_keys(rows_back::<K>(stored.deep_view())),
        },
{
    let ghost rows = rows_back::<K>(stored.deep_view());
    let mut table: Heatmap<K> = Heatmap::new();
    let mut i: usize = 0;
    while i < stored.len()
        invariant
            i <= stored.len(),
            rows == rows_back::<K>(stored.deep_view()),
            rows_known::<K>(stored.deep_view()),
            table.wf(),
            table.rows() == rows.take(i as int),
        decreases stored.len() - i,
    {
        assert(K::known(stored.deep_view()[i as int].0));
        match K::from_plain(&stored[i].0) {
            Some(key) => {
                proof {
                    crate::heatmap::lemma_rows_map_dom(table.rows());
                }
                assert(key@ == rows[i as int].0);
                let added = table.insert_new(key, stored[i].1);
                if !added {
                    proof {
                        let j = choose|j: int|
                            0 <= j < i && (#[trigger] rows.take(i as int)[j]).0 == rows[i as int].0;
                        assert(rows[j].0 == rows[i as int].0);
                    }
                    return None;
                }
                assert(table.rows() =~= rows.take(i + 1));
            },
            None => {
                return None;
            },
        }
        i = i + 1;
    }
    assert(rows.take(stored.len() as int) == rows);
    Some(table)
}

/// The bytes that `serde_bare::to_vec` gives for a file name and three lists
/// of stored rows, taken as one tuple; `None` where it gives an error.
pub uninterp spec fn bare_encoding(
    filename: Seq<char>,
    unigrams: Seq<((u64, Seq<char>), u32)>,
    bigrams: Seq<(((u64, Seq<char>), (u64, Seq<char>)), u32)>,
    trigrams: Seq<(((u64, Seq<char>), (u64, Seq<char>), (u64, Seq<char>)), u32)>,
) -> Option<Seq<u8>>;

/// The file name and the three lists of stored rows that
/// `serde_bare::from_slice` reads from bytes; `None` where it gives an error.
pub uninterp spec fn bare_decoding(bytes: Seq<u8>) -> Option<
    (
        Seq<char>,
        Seq<((u64, Seq<char>), u32)>,
        Seq<(((u64, Seq<char>), (u64, Seq<char>)), u32)>,
        Seq<(((u64, Seq<char>), (u64, Seq<char>), (u64, Seq<char>)), u32)>,
    ),
>;

#[verifier::external_type_specification]
#[verifier::external_body]
pub struct ExBareError(serde_bare::error::Error);

/// Calls `serde_bare::to_vec` on the tuple of the four arguments. The claim
/// is that what it returns depends on their contents alone: the bytes, or
/// that there are none, are named `bare_encoding`.
#[verifier::external_body]
pub(crate) fn bare_encode(
    filename: &String,
    unigrams: &Vec<UnigramRow>,
    bigrams: &Vec<BigramRow>,
    trigrams: &Vec<TrigramRow>,
) -> (r: Result<Vec<u8>, serde_bare::error::Error>)
    ensures
        match r {
            Ok(bytes) => bare_encoding(
                filename@,
                unigrams.deep_view(),
                bigrams.deep_view(),
                trigrams.deep_view(),
            ) == Some(bytes@),
            Err(_) => bare_encoding(
                filename@,
                unigrams.deep_view(),
                bigrams.deep_view(),
                trigrams.deep_view(),
            ) is None,
        },
{
    serde_bare::to_vec(&(filename, unigrams, bigrams, trigrams))
}

/// Calls `serde_bare::from_slice` for a tuple of a file name and three lists
/// of stored rows. The claim is that what it returns depends on the bytes
/// alone: the tuple, or that there is none, is named `bare_decoding`.
#[verifier::external_body]
pub(crate) fn bare_decode(bytes: &[u8]) -> (r: Result<
    (String, Vec<UnigramRow>, Vec<BigramRow>, Vec<TrigramRow>),
    serde_bare::error::Error,
>)
    ensures
        match r {
            Ok(image) => bare_decoding(bytes@) == Some(
                (image.0@, image.1.deep_view(), image.2.deep_view(), image.3.deep_view()),
            ),
            Err(_) => bare_decoding(bytes@) is None,
        },
{
    serde_bare::from_slice(bytes)
}

} // verus!
