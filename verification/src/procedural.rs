use vstd::prelude::*;

use convert_case::Casing;
use vstd::seq_lib::{to_multiset_build, to_multiset_insert, to_multiset_len};

verus! {

/// The cases that keyboard names are converted to.
#[derive(Clone, Copy, Debug, PartialEq, Eq, Structural)]
pub enum NameCase {
    /// `snake_case`, for module names.
    Snake,
    /// `PascalCase`, for type names.
    Pascal,
}

/// What `convert_case::Casing::to_case` makes of `name` in `case`.
pub uninterp spec fn case_converted(name: Seq<char>, case: NameCase) -> Seq<char>;

/// Converts `name` with `convert_case::Casing::to_case`; the conversion is
/// named, not stated.
#[verifier::external_body]
fn to_case(name: &str, case: NameCase) -> (converted: String)
    ensures
        converted@ == case_converted(name@, case),
{
    match case {
        NameCase::Snake => name.to_case(convert_case::Case::Snake),
        NameCase::Pascal => name.to_case(convert_case::Case::Pascal),
    }
}

/// The keyboard built when none is selected.
pub open spec fn default_keyboard() -> Seq<char> {
    "meboard"@
}

/// The module and the type of the selected keyboard: `name`, or `meboard`
/// when none is selected, in snake case and in Pascal case.
pub fn keyboard_alias(name: Option<String>) -> (alias: (String, String))
    ensures
        ({
            let selected = match name {
                Some(name) => name@,
                None => default_keyboard(),
            };
            &&& alias.0@ == case_converted(selected, NameCase::Snake)
            &&& alias.1@ == case_converted(selected, NameCase::Pascal)
        }),
{
    let name = match name {
        Some(name) => name,
        None => "meboard".to_owned(),
    };
    let module = to_case(name.as_str(), NameCase::Snake);
    let keyboard = to_case(name.as_str(), NameCase::Pascal);
    (module, keyboard)
}

} // verus!

verus! {

/// Whether `a` comes strictly before `b` in lexicographic order.
pub open spec fn lex_before(a: Seq<int>, b: Seq<int>) -> bool
    decreases a.len(),
{
    if a.len() == 0 {
        b.len() > 0
    } else if b.len() == 0 {
        false
    } else if a[0] != b[0] {
        a[0] < b[0]
    } else {
        lex_before(a.drop_first(), b.drop_first())
    }
}

/// No sequence comes before itself.
pub proof fn lemma_lex_irreflexive(a: Seq<int>)
    ensures
        !lex_before(a, a),
    decreases a.len(),
{
    if a.len() > 0 {
        lemma_lex_irreflexive(a.drop_first());
    }
}

/// Lexicographic order is transitive.
pub proof fn lemma_lex_transitive(a: Seq<int>, b: Seq<int>, c: Seq<int>)
    requires
        lex_before(a, b),
        lex_before(b, c),
    ensures
        lex_before(a, c),
    decreases a.len(),
{
    if a.len() > 0 && b.len() > 0 && c.len() > 0 && a[0] == b[0] && b[0] == c[0] {
        lemma_lex_transitive(a.drop_first(), b.drop_first(), c.drop_first());
    }
}

/// Of two different sequences, one comes before the other.
pub proof fn lemma_lex_total(a: Seq<int>, b: Seq<int>)
    requires
        a != b,
    ensures
        lex_before(a, b) || lex_before(b, a),
    decreases a.len(),
{
    if a.len() > 0 && b.len() > 0 && a[0] == b[0] {
        if a.drop_first() == b.drop_first() {
            assert(a =~= seq![a[0]] + a.drop_first());
            assert(b =~= seq![b[0]] + b.drop_first());
        }
        lemma_lex_total(a.drop_first(), b.drop_first());
    } else if a.len() == 0 && b.len() == 0 {
        assert(a =~= b);
    }
}

/// The code points of a name.
pub open spec fn code_points(name: Seq<char>) -> Seq<int> {
    name.map_values(|c: char| c as int)
}

/// The byte values of a name.
pub open spec fn byte_values(name: Seq<u8>) -> Seq<int> {
    name.map_values(|b: u8| b as int)
}

/// Whether `a` comes before `b` in the order of `String`'s comparison: the
/// order of their UTF-8 bytes, which is that of their code points.
pub open spec fn name_before(a: Seq<char>, b: Seq<char>) -> bool {
    lex_before(code_points(a), code_points(b))
}

/// Names in order, each no later than the next.
pub open spec fn names_sorted(names: Seq<Seq<char>>) -> bool {
    forall|i: int, j: int| 0 <= i < j < names.len() ==> !name_before(#[trigger] names[j], #[trigger] names[i])
}

proof fn lemma_lex_step(a: Seq<int>, b: Seq<int>, i: int)
    requires
        0 <= i < a.len(),
        i < b.len(),
        a.subrange(0, i) == b.subrange(0, i),
    ensures
        a[i] != b[i] ==> (lex_before(a, b) <==> a[i] < b[i]),
        a[i] == b[i] ==> a.subrange(0, i + 1) == b.subrange(0, i + 1),
    decreases i,
{
    if i > 0 {
        assert(a.drop_first().subrange(0, i - 1) =~= a.subrange(0, i).drop_first());
        assert(b.drop_first().subrange(0, i - 1) =~= b.subrange(0, i).drop_first());
        assert(a[0] == a.subrange(0, i)[0]);
        assert(b[0] == b.subrange(0, i)[0]);
        lemma_lex_step(a.drop_first(), b.drop_first(), i - 1);
    }
    if a[i] == b[i] {
        assert(a.subrange(0, i + 1) =~= a.subrange(0, i).push(a[i]));
        assert(b.subrange(0, i + 1) =~= b.subrange(0, i).push(b[i]));
    }
}

proof fn lemma_lex_prefix(a: Seq<int>, b: Seq<int>)
    requires
        a.len() <= b.len(),
        a == b.subrange(0, a.len() as int),
    ensures
        lex_before(a, b) <==> a.len() < b.len(),
    decreases a.len(),
{
    if a.len() > 0 {
        assert(a.drop_first() =~= b.drop_first().subrange(0, a.len() - 1));
        assert(a[0] == b.subrange(0, a.len() as int)[0]);
        lemma_lex_prefix(a.drop_first(), b.drop_first());
    }
}

/// Whether `a` comes before `b`, comparing code points one by one.
pub fn name_less(a: &str, b: &str) -> (before: bool)
    ensures
        before == name_before(a@, b@),
{
    let a_len = a.unicode_len();
    let b_len = b.unicode_len();
    let ghost ca = code_points(a@);
    let ghost cb = code_points(b@);
    let mut i: usize = 0;
    while i < a_len && i < b_len
        invariant
            a_len == a@.len(),
            b_len == b@.len(),
            ca == code_points(a@),
            cb == code_points(b@),
            i <= a_len,
            i <= b_len,
            ca.subrange(0, i as int) == cb.subrange(0, i as int),
        decreases a_len - i,
    {
        let x = a.get_char(i);
        let y = b.get_char(i);
        proof {
            lemma_lex_step(ca, cb, i as int);
        }
        if x != y {
            assert(ca[i as int] != cb[i as int]);
            return (x as u32) < (y as u32);
        }
        i = i + 1;
    }
    proof {
        if a_len <= b_len {
            assert(ca =~= ca.subrange(0, a_len as int));
            lemma_lex_prefix(ca, cb);
        } else {
            assert(cb =~= cb.subrange(0, b_len as int));
            lemma_lex_prefix(cb, ca);
            lemma_lex_irreflexive(cb);
            if lex_before(ca, cb) {
                lemma_lex_transitive(cb, ca, cb);
            }
        }
    }
    i < b_len
}

} // verus!

verus! {

/// The name of a directory entry: text when it is valid UTF-8, its raw
/// bytes otherwise.
#[derive(Clone, Debug)]
pub enum EntryName {
    Unicode(String),
    Other(Vec<u8>),
}

/// A directory entry, as far as the keyboard list needs it.
#[derive(Clone, Debug)]
pub struct DirEntry {
    /// Whether the entry is a regular file.
    pub is_file: bool,
    pub name: EntryName,
}

/// Why no keyboard list can be made from a directory.
#[derive(Clone, Debug)]
pub enum SourceNamesError {
    /// A source file's name is not valid UTF-8; the earliest such name in
    /// byte order.
    Utf8(Vec<u8>),
    /// The directory holds no keyboard source file.
    Empty,
}

/// Files that are never a keyboard of their own.
pub open spec fn is_module_file(name: Seq<char>) -> bool {
    ||| name == seq!['m', 'o', 'd', '.', 'r', 's']
    ||| name == seq!['l', 'i', 'b', '.', 'r', 's']
    ||| name == seq!['m', 'a', 'i', 'n', '.', 'r', 's']
}

/// A name with the extension `rs`: it ends in `.rs` after a non-empty stem.
pub open spec fn is_rust_name(name: Seq<char>) -> bool {
    &&& name.len() > 3
    &&& name[name.len() - 3] == '.'
    &&& name[name.len() - 2] == 'r'
    &&& name[name.len() - 1] == 's'
}

/// The raw-bytes counterpart of `is_rust_name`.
pub open spec fn is_rust_bytes(name: Seq<u8>) -> bool {
    &&& name.len() > 3
    &&& name[name.len() - 3] == 0x2e
    &&& name[name.len() - 2] == 0x72
    &&& name[name.len() - 1] == 0x73
}

/// Whether an entry is a keyboard source file with a UTF-8 name.
pub open spec fn is_keyboard_entry(entry: DirEntry) -> bool {
    &&& entry.is_file
    &&& entry.name matches EntryName::Unicode(name)
    &&& !is_module_file(name@)
    &&& is_rust_name(name@)
}

/// Whether an entry is a source file whose name is not UTF-8.
pub open spec fn is_undecodable_entry(entry: DirEntry) -> bool {
    &&& entry.is_file
    &&& entry.name matches EntryName::Other(bytes)
    &&& is_rust_bytes(bytes@)
}

/// The keyboard names of the entries, in entry order: the file names
/// without `.rs`.
pub open spec fn keyboard_stems(entries: Seq<DirEntry>) -> Seq<Seq<char>>
    decreases entries.len(),
{
    if entries.len() == 0 {
        Seq::empty()
    } else {
        let earlier = keyboard_stems(entries.drop_last());
        let entry = entries.last();
        if is_keyboard_entry(entry) {
            let name = entry.name->Unicode_0@;
            earlier.push(name.subrange(0, name.len() - 3))
        } else {
            earlier
        }
    }
}

/// The names of the source files that are not UTF-8, in entry order.
pub open spec fn undecodable_names(entries: Seq<DirEntry>) -> Seq<Seq<u8>>
    decreases entries.len(),
{
    if entries.len() == 0 {
        Seq::empty()
    } else {
        let earlier = undecodable_names(entries.drop_last());
        let entry = entries.last();
        if is_undecodable_entry(entry) {
            earlier.push(entry.name->Other_0@)
        } else {
            earlier
        }
    }
}

/// Whether `a` comes before `b` in byte order.
pub open spec fn bytes_before(a: Seq<u8>, b: Seq<u8>) -> bool {
    lex_before(byte_values(a), byte_values(b))
}

/// Whether `a` comes before `b`, comparing bytes one by one.
fn bytes_less(a: &Vec<u8>, b: &Vec<u8>) -> (before: bool)
    ensures
        before == bytes_before(a@, b@),
{
    let ghost ca = byte_values(a@);
    let ghost cb = byte_values(b@);
    let mut i: usize = 0;
    while i < a.len() && i < b.len()
        invariant
            ca == byte_values(a@),
            cb == byte_values(b@),
            i <= a@.len(),
            i <= b@.len(),
            ca.subrange(0, i as int) == cb.subrange(0, i as int),
        decreases a@.len() - i,
    {
        proof {
            lemma_lex_step(ca, cb, i as int);
        }
        if a[i] != b[i] {
            return a[i] < b[i];
        }
        i = i + 1;
    }
    proof {
        if a@.len() <= b@.len() {
            assert(ca =~= ca.subrange(0, a@.len() as int));
            lemma_lex_prefix(ca, cb);
        } else {
            assert(cb =~= cb.subrange(0, b@.len() as int));
            lemma_lex_prefix(cb, ca);
            lemma_lex_irreflexive(cb);
            if lex_before(ca, cb) {
                lemma_lex_transitive(cb, ca, cb);
            }
        }
    }
    i < b.len()
}

/// Whether `name` is exactly `expected`.
fn name_is(name: &str, expected: &[char]) -> (same: bool)
    ensures
        same == (name@ == expected@),
{
    let len = name.unicode_len();
    if len != expected.len() {
        return false;
    }
    let mut i: usize = 0;
    while i < len
        invariant
            len == name@.len(),
            len == expected@.len(),
            i <= len,
            name@.subrange(0, i as int) == expected@.subrange(0, i as int),
        decreases len - i,
    {
        if name.get_char(i) != expected[i] {
            assert(name@[i as int] != expected@[i as int]);
            return false;
        }
        assert(name@.subrange(0, i + 1) =~= name@.subrange(0, i as int).push(name@[i as int]));
        assert(expected@.subrange(0, i + 1) =~= expected@.subrange(0, i as int).push(expected@[i as int]));
        i = i + 1;
    }
    assert(name@ =~= name@.subrange(0, len as int));
    assert(expected@ =~= expected@.subrange(0, len as int));
    true
}

/// The keyboard name of a UTF-8 entry name, if it is a keyboard source file.
fn keyboard_stem(name: &str) -> (stem: Option<String>)
    ensures
        match stem {
            Some(stem) => !is_module_file(name@) && is_rust_name(name@) && stem@ == name@.subrange(0, name@.len() - 3),
            None => is_module_file(name@) || !is_rust_name(name@),
        },
{
    if name_is(name, &['m', 'o', 'd', '.', 'r', 's']) || name_is(name, &['l', 'i', 'b', '.', 'r', 's']) || name_is(
        name,
        &['m', 'a', 'i', 'n', '.', 'r', 's'],
    ) {
        return None;
    }
    let len = name.unicode_len();
    if len > 3 && name.get_char(len - 3) == '.' && name.get_char(len - 2) == 'r' && name.get_char(len - 1) == 's' {
        Some(name.substring_char(0, len - 3).to_owned())
    } else {
        None
    }
}

/// Whether raw entry bytes name a source file.
fn is_rust_file_bytes(name: &Vec<u8>) -> (rust: bool)
    ensures
        rust == is_rust_bytes(name@),
{
    let len = name.len();
    len > 3 && name[len - 3] == 0x2e && name[len - 2] == 0x72 && name[len - 1] == 0x73
}

} // verus!

verus! {

/// The text of each name.
pub open spec fn texts(names: Seq<String>) -> Seq<Seq<char>> {
    names.map_values(|name: String| name@)
}

/// Inserts `name` after every name that does not come after it.
fn insert_sorted(names: &mut Vec<String>, name: String)
    requires
        names_sorted(texts(old(names)@)),
    ensures
        names_sorted(texts(final(names)@)),
        texts(final(names)@).to_multiset() == texts(old(names)@).to_multiset().insert(name@),
{
    let mut k: usize = 0;
    while k < names.len() && !name_less(name.as_str(), names[k].as_str())
        invariant
            k <= names@.len(),
            names@ == old(names)@,
            forall|j: int| 0 <= j < k ==> !name_before(name@, #[trigger] texts(names@)[j]),
        decreases names@.len() - k,
    {
        k = k + 1;
    }
    let ghost before = texts(names@);
    let ghost text = name@;
    names.insert(k, name);
    proof {
        let after = texts(names@);
        assert(after =~= before.insert(k as int, text));
        assert forall|p: int, q: int| 0 <= p < q < after.len() implies !name_before(
            #[trigger] after[q],
            #[trigger] after[p],
        ) by {
            if q == k {
                assert(after[p] == before[p]);
            } else if p == k {
                assert(after[q] == before[q - 1]);
                if name_before(before[q - 1], text) {
                    lemma_lex_transitive(code_points(before[q - 1]), code_points(text), code_points(before[k as int]));
                    if q - 1 == k {
                        lemma_lex_irreflexive(code_points(before[k as int]));
                    }
                }
            } else {
                let op = if p < k { p } else { p - 1 };
                let oq = if q < k { q } else { q - 1 };
                assert(after[p] == before[op]);
                assert(after[q] == before[oq]);
            }
        }
        to_multiset_insert(before, k as int, text);
    }
}

/// The keyboards in a directory, from its entries: the names of its
/// source files without `.rs`, sorted, leaving out `mod.rs`, `lib.rs`
/// and `main.rs`. A source file whose name is not UTF-8 is an error, and
/// so is a directory without keyboards.
pub fn source_file_names(entries: &Vec<DirEntry>) -> (result: Result<Vec<String>, SourceNamesError>)
    ensures
        match result {
            Ok(names) => {
                &&& undecodable_names(entries@).len() == 0
                &&& keyboard_stems(entries@).len() > 0
                &&& names_sorted(texts(names@))
                &&& texts(names@).to_multiset() == keyboard_stems(entries@).to_multiset()
            },
            Err(SourceNamesError::Utf8(name)) => {
                &&& undecodable_names(entries@).contains(name@)
                &&& forall|other: Seq<u8>| #[trigger]
                    undecodable_names(entries@).contains(other) ==> !bytes_before(other, name@)
            },
            Err(SourceNamesError::Empty) => {
                &&& undecodable_names(entries@).len() == 0
                &&& keyboard_stems(entries@).len() == 0
            },
        },
{
    let mut names: Vec<String> = Vec::new();
    let mut earliest: Option<usize> = None;
    let mut i: usize = 0;
    proof {
        assert(entries@.take(0) =~= Seq::<DirEntry>::empty());
        assert(texts(names@) =~= Seq::<Seq<char>>::empty());
    }
    while i < entries.len()
        invariant
            i <= entries@.len(),
            names_sorted(texts(names@)),
            texts(names@).to_multiset() == keyboard_stems(entries@.take(i as int)).to_multiset(),
            match earliest {
                Some(e) => {
                    &&& e < i
                    &&& is_undecodable_entry(entries@[e as int])
                    &&& undecodable_names(entries@.take(i as int)).contains(entries@[e as int].name->Other_0@)
                    &&& forall|other: Seq<u8>| #[trigger]
                        undecodable_names(entries@.take(i as int)).contains(other) ==> !bytes_before(
                            other,
                            entries@[e as int].name->Other_0@,
                        )
                },
                None => undecodable_names(entries@.take(i as int)).len() == 0,
            },
        decreases entries@.len() - i,
    {
        let ghost seen = entries@.take(i as int);
        let ghost now = entries@.take(i + 1);
        proof {
            assert(now.drop_last() =~= seen);
            assert(now.last() == entries@[i as int]);
        }
        let entry = &entries[i];
        if entry.is_file {
            match &entry.name {
                EntryName::Unicode(name) => {
                    match keyboard_stem(name.as_str()) {
                        Some(stem) => {
                            insert_sorted(&mut names, stem);
                        },
                        None => {},
                    }
                },
                EntryName::Other(bytes) => {
                    if is_rust_file_bytes(bytes) {
                        let ghost failures = undecodable_names(now);
                        assert(failures == undecodable_names(seen).push(bytes@));
                        match earliest {
                            Some(e) => {
                                let ghost best = entries@[e as int].name->Other_0@;
                                let best_bytes = match &entries[e].name {
                                    EntryName::Other(b) => b,
                                    EntryName::Unicode(..) => bytes,
                                };
                                if bytes_less(bytes, best_bytes) {
                                    proof {
                                        assert forall|other: Seq<u8>| #[trigger]
                                            failures.contains(other) implies !bytes_before(other, bytes@) by {
                                            if other == bytes@ {
                                                lemma_lex_irreflexive(byte_values(other));
                                            } else {
                                                let j = choose|j: int| 0 <= j < failures.len() && failures[j] == other;
                                                if j < undecodable_names(seen).len() {
                                                    assert(undecodable_names(seen).contains(other));
                                                    if bytes_before(other, bytes@) {
                                                        lemma_lex_transitive(byte_values(other), byte_values(bytes@), byte_values(best));
                                                    }
                                                }
                                            }
                                        }
                                        assert(failures[failures.len() - 1] == bytes@);
                                    }
                                    earliest = Some(i);
                                } else {
                                    proof {
                                        assert forall|other: Seq<u8>| #[trigger]
                                            failures.contains(other) implies !bytes_before(other, best) by {
                                            let j = choose|j: int| 0 <= j < failures.len() && failures[j] == other;
                                            if j < undecodable_names(seen).len() {
                                                assert(undecodable_names(seen).contains(other));
                                            }
                                        }
                                        let j = choose|j: int| 0 <= j < undecodable_names(seen).len() && undecodable_names(seen)[j] == best;
                                        assert(failures[j] == best);
                                    }
                                }
                            },
                            None => {
                                proof {
                                    assert forall|other: Seq<u8>| #[trigger]
                                        failures.contains(other) implies !bytes_before(other, bytes@) by {
                                        lemma_lex_irreflexive(byte_values(other));
                                    }
                                    assert(failures[0] == bytes@);
                                }
                                earliest = Some(i);
                            },
                        }
                    } else {
                        assert(undecodable_names(now) == undecodable_names(seen));
                    }
                },
            }
        }
        proof {
            assert(keyboard_stems(now) == if is_keyboard_entry(entries@[i as int]) {
                keyboard_stems(seen).push(
                    entries@[i as int].name->Unicode_0@.subrange(0, entries@[i as int].name->Unicode_0@.len() - 3),
                )
            } else {
                keyboard_stems(seen)
            });
            if !is_undecodable_entry(entries@[i as int]) {
                assert(undecodable_names(now) == undecodable_names(seen));
            }
            if is_keyboard_entry(entries@[i as int]) {
                let name = entries@[i as int].name->Unicode_0@;
                to_multiset_build(keyboard_stems(seen), name.subrange(0, name.len() - 3));
            }
        }
        i = i + 1;
    }
    proof {
        assert(entries@.take(entries@.len() as int) =~= entries@);
    }
    match earliest {
        Some(e) => {
            let failure = match &entries[e].name {
                EntryName::Other(bytes) => bytes.clone(),
                EntryName::Unicode(..) => Vec::new(),
            };
            assert(failure@ =~= entries@[e as int].name->Other_0@);
            Err(SourceNamesError::Utf8(failure))
        },
        None => {
            if names.len() == 0 {
                proof {
                    assert(texts(names@) =~= Seq::<Seq<char>>::empty());
                    to_multiset_len(texts(names@));
                    to_multiset_len(keyboard_stems(entries@));
                }
                Err(SourceNamesError::Empty)
            } else {
                proof {
                    to_multiset_len(texts(names@));
                    to_multiset_len(keyboard_stems(entries@));
                }
                Ok(names)
            }
        },
    }
}

} // verus!
