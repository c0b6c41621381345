//! Lists of names in the order in which std sorts strings: by their UTF-8 bytes.
use vstd::prelude::*;
use vstd::utf8::{encode_utf8_decode_utf8, encode_utf8};

verus! {

/// The contents of a list of strings.
pub open spec fn texts(names: Seq<String>) -> Seq<Seq<char>> {
    names.map_values(|name: String| name@)
}

/// Whether a byte string comes strictly before another in lexicographic order.
pub open spec fn bytes_before(left: Seq<u8>, right: Seq<u8>) -> bool
    decreases left.len(),
{
    if right.len() == 0 {
        false
    } else if left.len() == 0 {
        true
    } else if left[0] != right[0] {
        left[0] < right[0]
    } else {
        bytes_before(left.skip(1), right.skip(1))
    }
}

/// Whether a name comes strictly before another: strings are ordered by their bytes.
pub open spec fn name_before(left: Seq<char>, right: Seq<char>) -> bool {
    bytes_before(encode_utf8(left), encode_utf8(right))
}

/// Whether each name of a list comes strictly before every later one.
pub open spec fn strictly_sorted(names: Seq<Seq<char>>) -> bool {
    forall|i: int, j: int|
        0 <= i < j < names.len() ==> name_before(#[trigger] names[i], #[trigger] names[j])
}

/// How two names stand to each other.
#[derive(Debug, Clone, Copy, PartialEq, Eq, Structural)]
pub enum Placement {
    Before,
    Same,
    After,
}

proof fn lemma_bytes_irreflexive(bytes: Seq<u8>)
    ensures
        !bytes_before(bytes, bytes),
    decreases bytes.len(),
{
    if bytes.len() > 0 {
        lemma_bytes_irreflexive(bytes.skip(1));
    }
}

proof fn lemma_bytes_transitive(a: Seq<u8>, b: Seq<u8>, c: Seq<u8>)
    requires
        bytes_before(a, b),
        bytes_before(b, c),
    ensures
        bytes_before(a, c),
    decreases a.len(),
{
    if a.len() > 0 && a[0] == b[0] && b[0] == c[0] {
        lemma_bytes_transitive(a.skip(1), b.skip(1), c.skip(1));
    }
}

/// Different strings have different bytes.
proof fn lemma_bytes_identify(left: Seq<char>, right: Seq<char>)
    requires
        encode_utf8(left) == encode_utf8(right),
    ensures
        left == right,
{
    encode_utf8_decode_utf8(left);
    encode_utf8_decode_utf8(right);
}

proof fn lemma_name_transitive(a: Seq<char>, b: Seq<char>, c: Seq<char>)
    requires
        name_before(a, b),
        name_before(b, c),
    ensures
        name_before(a, c),
{
    lemma_bytes_transitive(encode_utf8(a), encode_utf8(b), encode_utf8(c));
}

proof fn lemma_name_asymmetric(a: Seq<char>, b: Seq<char>)
    requires
        name_before(a, b),
    ensures
        !name_before(b, a),
        a != b,
{
    lemma_bytes_irreflexive(encode_utf8(a));
    if name_before(b, a) {
        lemma_name_transitive(a, b, a);
    }
}

/// One byte string comes before another exactly when, behind a common start, it ends first or goes
/// on with the smaller byte.
pub proof fn law_first_difference_decides(left: Seq<u8>, right: Seq<u8>, at: int)
    requires
        0 <= at <= left.len(),
        at <= right.len(),
        left.take(at) == right.take(at),
    ensures
        at == right.len() ==> !bytes_before(left, right),
        at == left.len() && at < right.len() ==> bytes_before(left, right),
        at < left.len() && at < right.len() && left[at] != right[at] ==> (bytes_before(left, right)
            <==> left[at] < right[at]),
    decreases at,
{
    if at > 0 {
        assert(left[0] == left.take(at)[0] && right[0] == right.take(at)[0]);
        assert(left.skip(1).take(at - 1) =~= left.take(at).skip(1));
        assert(right.skip(1).take(at - 1) =~= right.take(at).skip(1));
        law_first_difference_decides(left.skip(1), right.skip(1), at - 1);
    }
}

/// A strictly sorted list is determined by its contents: whatever order the names were met
/// in, sorting them without repetition gives the same list.
pub proof fn law_sorted_names_are_unique(left: Seq<Seq<char>>, right: Seq<Seq<char>>)
    requires
        strictly_sorted(left),
        strictly_sorted(right),
        forall|name: Seq<char>| #[trigger] left.contains(name) <==> right.contains(name),
    ensures
        left == right,
    decreases left.len(),
{
    if left.len() == 0 {
        if right.len() > 0 {
            assert(right.contains(right[0]));
            assert(left.contains(right[0]));
        }
        assert(left =~= right);
    } else {
        assert(left.contains(left[0]));
        assert(right.contains(left[0]));
        let (a, b) = (left[0], right[0]);
        assert(right.contains(b));
        assert(left.contains(b));
        let at_left = choose|i: int| 0 <= i < left.len() && left[i] == b;
        let at_right = choose|i: int| 0 <= i < right.len() && right[i] == a;
        if a != b {
            assert(name_before(left[0], left[at_left]));
            assert(name_before(right[0], right[at_right]));
            lemma_name_asymmetric(a, b);
        }
        let (rest_left, rest_right) = (left.skip(1), right.skip(1));
        assert forall|name: Seq<char>| #[trigger] rest_left.contains(name) implies rest_right.contains(
            name,
        ) by {
            let i = choose|i: int| 0 <= i < rest_left.len() && rest_left[i] == name;
            assert(left[i + 1] == name && name_before(left[0], left[i + 1]));
            lemma_name_asymmetric(a, name);
            assert(left.contains(name));
            let j = choose|j: int| 0 <= j < right.len() && right[j] == name;
            assert(rest_right[j - 1] == name);
        }
        assert forall|name: Seq<char>| #[trigger] rest_right.contains(name) implies rest_left.contains(
            name,
        ) by {
            let i = choose|i: int| 0 <= i < rest_right.len() && rest_right[i] == name;
            assert(right[i + 1] == name && name_before(right[0], right[i + 1]));
            lemma_name_asymmetric(b, name);
            assert(right.contains(name));
            assert(left.contains(name));
            let j = choose|j: int| 0 <= j < left.len() && left[j] == name;
            assert(rest_left[j - 1] == name);
        }
        law_sorted_names_are_unique(rest_left, rest_right);
        assert(left =~= seq![a] + rest_left);
        assert(right =~= seq![b] + rest_right);
    }
}

/// How two byte strings stand to each other.
fn place_bytes(left: &[u8], right: &[u8]) -> (placement: Placement)
    ensures
        placement is Before <==> bytes_before(left@, right@),
        placement is After <==> bytes_before(right@, left@),
        placement is Same <==> left@ == right@,
{
    let mut at: usize = 0;
    proof {
        lemma_bytes_irreflexive(left@);
        assert(left@.skip(0) =~= left@);
        assert(right@.skip(0) =~= right@);
    }
    while at < left.len() && at < right.len() && left[at] == right[at]
        invariant
            at <= left@.len(),
            at <= right@.len(),
            left@.take(at as int) == right@.take(at as int),
            bytes_before(left@, right@) == bytes_before(
                left@.skip(at as int),
                right@.skip(at as int),
            ),
            bytes_before(right@, left@) == bytes_before(
                right@.skip(at as int),
                left@.skip(at as int),
            ),
        decreases left@.len() - at,
    {
        proof {
            assert(left@.skip(at as int).skip(1) =~= left@.skip(at + 1));
            assert(right@.skip(at as int).skip(1) =~= right@.skip(at + 1));
            assert(left@.take(at + 1) =~= left@.take(at as int).push(left@[at as int]));
            assert(right@.take(at + 1) =~= right@.take(at as int).push(right@[at as int]));
        }
        at = at + 1;
    }
    if at == right.len() {
        if at == left.len() {
            assert(left@ =~= left@.take(at as int));
            assert(right@ =~= right@.take(at as int));
            Placement::Same
        } else {
            Placement::After
        }
    } else if at == left.len() || left[at] < right[at] {
        Placement::Before
    } else {
        Placement::After
    }
}

/// How two names stand to each other.
pub fn place_names(left: &str, right: &str) -> (placement: Placement)
    ensures
        placement is Before <==> name_before(left@, right@),
        placement is After <==> name_before(right@, left@),
        placement is Same <==> left@ == right@,
{
    proof {
        if encode_utf8(left@) == encode_utf8(right@) {
            lemma_bytes_identify(left@, right@);
        }
    }
    place_bytes(left.as_bytes(), right.as_bytes())
}

/// Puts a name into a strictly sorted list, unless it is there.
fn insert_name(names: &mut Vec<String>, name: &String)
    requires
        strictly_sorted(texts(old(names)@)),
    ensures
        strictly_sorted(texts(final(names)@)),
        forall|text: Seq<char>| #[trigger]
            texts(final(names)@).contains(text) <==> texts(old(names)@).contains(text) || text
                == name@,
{
    let ghost before = texts(names@);
    let mut at: usize = 0;
    while at < names.len()
        invariant
            at <= names@.len(),
            before == texts(names@),
            strictly_sorted(before),
            names@ == old(names)@,
            forall|i: int| 0 <= i < at ==> name_before(#[trigger] before[i], name@),
        decreases names@.len() - at,
    {
        match place_names(&names[at], name) {
            Placement::Before => {
                assert(before[at as int] == names@[at as int]@);
                at = at + 1;
            },
            Placement::Same => {
                assert(before[at as int] == name@);
                return;
            },
            Placement::After => {
                let ghost spot = at as int;
                names.insert(at, name.clone());
                proof {
                    let after = texts(names@);
                    assert(after =~= before.insert(spot, name@));
                    assert(name_before(name@, before[spot]));
                    assert forall|i: int, j: int| 0 <= i < j < after.len() implies name_before(
                        #[trigger] after[i],
                        #[trigger] after[j],
                    ) by {
                        if i == spot && j - 1 > spot {
                            assert(name_before(before[spot], before[j - 1]));
                            lemma_name_transitive(name@, before[spot], before[j - 1]);
                        }
                    }
                    lemma_inserted_contents(before, spot, name@);
                }
                return;
            },
        }
    }
    let ghost spot = at as int;
    names.push(name.clone());
    proof {
        assert(texts(names@) =~= before.insert(spot, name@));
        lemma_inserted_contents(before, spot, name@);
    }
}

proof fn lemma_inserted_contents(names: Seq<Seq<char>>, spot: int, name: Seq<char>)
    requires
        0 <= spot <= names.len(),
    ensures
        forall|text: Seq<char>| #[trigger]
            names.insert(spot, name).contains(text) <==> names.contains(text) || text == name,
{
    let longer = names.insert(spot, name);
    assert forall|text: Seq<char>| #[trigger] longer.contains(text) <==> names.contains(text) || text
        == name by {
        if names.contains(text) {
            let i = choose|i: int| 0 <= i < names.len() && names[i] == text;
            assert(longer[if i < spot { i } else { i + 1 }] == text);
        }
        assert(longer[spot] == name);
        if longer.contains(text) && text != name {
            let i = choose|i: int| 0 <= i < longer.len() && longer[i] == text;
            assert(names[if i < spot { i } else { i - 1 }] == text);
        }
    }
}

/// Sorts a list of names and drops repetitions.
pub fn sort_distinct(names: &Vec<String>) -> (sorted: Vec<String>)
    ensures
        strictly_sorted(texts(sorted@)),
        forall|text: Seq<char>| #[trigger]
            texts(sorted@).contains(text) <==> texts(names@).contains(text),
{
    let mut sorted: Vec<String> = Vec::new();
    let mut done: usize = 0;
    while done < names.len()
        invariant
            done <= names@.len(),
            strictly_sorted(texts(sorted@)),
            forall|text: Seq<char>| #[trigger]
                texts(sorted@).contains(text) <==> texts(names@).take(done as int).contains(text),
        decreases names@.len() - done,
    {
        insert_name(&mut sorted, &names[done]);
        proof {
            let all = texts(names@);
            assert(all.take(done + 1) =~= all.take(done as int).insert(done as int, names@[done as int]@));
            lemma_inserted_contents(all.take(done as int), done as int, names@[done as int]@);
        }
        done = done + 1;
    }
    assert(texts(names@).take(done as int) =~= texts(names@));
    sorted
}

/// A sorted list goes up by the bytes of its names, and holds none twice.
pub proof fn law_sorted_names_go_up(names: Seq<Seq<char>>, i: int, j: int)
    requires
        strictly_sorted(names),
        0 <= i < j < names.len(),
    ensures
        bytes_before(encode_utf8(names[i]), encode_utf8(names[j])),
        names[i] != names[j],
{
    assert(name_before(names[i], names[j]));
    lemma_name_asymmetric(names[i], names[j]);
}

} // verus!
