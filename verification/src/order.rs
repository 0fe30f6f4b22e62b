//! The order of names, and lists of directories that are kept in it.

use crate::path::{last_component_decides, sort_key, DirectoryPath};
use vstd::prelude::*;

verus! {

/// Whether `a` comes before `b`: the first byte in which they differ decides, and a name comes
/// before the longer ones that start with it.
pub open spec fn comes_before(a: Seq<u8>, b: Seq<u8>) -> bool
    decreases a.len(),
{
    if b.len() == 0 {
        false
    } else if a.len() == 0 {
        true
    } else if a[0] != b[0] {
        a[0] < b[0]
    } else {
        comes_before(a.drop_first(), b.drop_first())
    }
}

/// How one name stands to another.
#[derive(Clone, Copy)]
pub enum NameOrder {
    Before,
    Same,
    After,
}

/// Of two names one comes before the other or they are the same, and only one of these holds.
pub proof fn names_are_comparable(a: Seq<u8>, b: Seq<u8>)
    ensures
        comes_before(a, b) || comes_before(b, a) || a == b,
        !(comes_before(a, b) && comes_before(b, a)),
        !comes_before(a, a),
        comes_before(a, b) ==> a != b,
    decreases a.len(),
{
    if a.len() > 0 {
        names_are_comparable(a.drop_first(), a.drop_first());
        if b.len() > 0 {
            names_are_comparable(a.drop_first(), b.drop_first());
            if a[0] == b[0] && a.drop_first() == b.drop_first() {
                assert(a == seq![a[0]] + a.drop_first());
                assert(b == seq![b[0]] + b.drop_first());
            }
        }
    } else if b.len() == 0 {
        assert(a == b);
    }
}

/// What comes before a name comes before all that the name comes before.
pub proof fn coming_before_is_transitive(a: Seq<u8>, b: Seq<u8>, c: Seq<u8>)
    requires
        comes_before(a, b),
        comes_before(b, c),
    ensures
        comes_before(a, c),
    decreases a.len(),
{
    if a.len() > 0 && a[0] == b[0] && b[0] == c[0] {
        coming_before_is_transitive(a.drop_first(), b.drop_first(), c.drop_first());
    }
}

proof fn lemma_common_start(a: Seq<u8>, b: Seq<u8>, n: int)
    requires
        0 <= n <= a.len(),
        n <= b.len(),
        a.take(n) == b.take(n),
    ensures
        comes_before(a, b) == comes_before(a.skip(n), b.skip(n)),
    decreases n,
{
    if n == 0 {
        assert(a.skip(0) == a);
        assert(b.skip(0) == b);
    } else {
        assert(a[0] == a.take(n)[0] == b.take(n)[0] == b[0]);
        assert(a.drop_first().take(n - 1) == a.take(n).drop_first());
        assert(b.drop_first().take(n - 1) == b.take(n).drop_first());
        lemma_common_start(a.drop_first(), b.drop_first(), n - 1);
        assert(a.drop_first().skip(n - 1) == a.skip(n));
        assert(b.drop_first().skip(n - 1) == b.skip(n));
    }
}

/// How `a` stands to `b`.
pub fn compare_names(a: &Vec<u8>, b: &Vec<u8>) -> (order: NameOrder)
    ensures
        order is Before <==> comes_before(a@, b@),
        order is Same <==> a@ == b@,
        order is After <==> comes_before(b@, a@),
{
    let mut i: usize = 0;
    while i < a.len() && i < b.len() && a[i] == b[i]
        invariant
            i <= a@.len(),
            i <= b@.len(),
            a@.take(i as int) == b@.take(i as int),
        decreases a@.len() - i,
    {
        i += 1;
        assert(a@.take(i as int) == a@.take(i - 1).push(a@[i - 1]));
        assert(b@.take(i as int) == b@.take(i - 1).push(b@[i - 1]));
    }
    proof {
        lemma_common_start(a@, b@, i as int);
        lemma_common_start(b@, a@, i as int);
        names_are_comparable(a@, b@);
        if i == a@.len() && i == b@.len() {
            assert(a@.take(i as int) == a@);
            assert(b@.take(i as int) == b@);
        }
    }
    if i < a.len() {
        if i < b.len() {
            if a[i] < b[i] {
                NameOrder::Before
            } else {
                NameOrder::After
            }
        } else {
            NameOrder::After
        }
    } else if i < b.len() {
        NameOrder::Before
    } else {
        NameOrder::Same
    }
}

/// Whether no directory stands behind one whose name comes after its own.
pub open spec fn sorted_by_name(directories: Seq<DirectoryPath>) -> bool {
    forall|i: int, j: int|
        0 <= i < j < directories.len() ==> !comes_before(
            sort_key((#[trigger] directories[j])@),
            sort_key((#[trigger] directories[i])@),
        )
}

/// Whether a directory named `key` may be put in at `position`: in front of one of the same
/// name, or, where there is none, between the names before it and those after it.
pub open spec fn is_place_for(
    directories: Seq<DirectoryPath>,
    key: Seq<u8>,
    position: int,
) -> bool {
    ||| 0 <= position < directories.len() && sort_key(directories[position]@) == key
    ||| {
        &&& 0 <= position <= directories.len()
        &&& forall|i: int|
            0 <= i < position ==> comes_before(sort_key((#[trigger] directories[i])@), key)
        &&& forall|i: int|
            position <= i < directories.len() ==> comes_before(
                key,
                sort_key((#[trigger] directories[i])@),
            )
    }
}

/// A place among `directories` for one named `key`. It is found by halving the range in
/// question, so it is the place to put the name only if the list is sorted.
pub fn find_place(directories: &Vec<DirectoryPath>, key: &Vec<u8>) -> (position: usize)
    ensures
        position <= directories@.len(),
        sorted_by_name(directories@) ==> is_place_for(directories@, key@, position as int),
{
    let mut low: usize = 0;
    let mut high: usize = directories.len();
    while low < high
        invariant
            low <= high <= directories@.len(),
            sorted_by_name(directories@) ==> forall|i: int|
                0 <= i < low ==> comes_before(sort_key((#[trigger] directories@[i])@), key@),
            sorted_by_name(directories@) ==> forall|i: int|
                high <= i < directories@.len() ==> comes_before(
                    key@,
                    sort_key((#[trigger] directories@[i])@),
                ),
        decreases high - low,
    {
        let middle: usize = low + (high - low) / 2;
        let name = directories[middle].key();
        match compare_names(&name, key) {
            NameOrder::Same => {
                return middle;
            },
            NameOrder::Before => {
                proof {
                    if sorted_by_name(directories@) {
                        assert forall|i: int| 0 <= i <= middle implies comes_before(
                            sort_key((#[trigger] directories@[i])@),
                            key@,
                        ) by {
                            let other = sort_key(directories@[i]@);
                            names_are_comparable(other, name@);
                            if i < middle && comes_before(other, name@) {
                                coming_before_is_transitive(other, name@, key@);
                            }
                        }
                    }
                }
                low = middle + 1;
            },
            NameOrder::After => {
                proof {
                    if sorted_by_name(directories@) {
                        assert forall|i: int| middle <= i < directories@.len() implies comes_before(
                            key@,
                            sort_key((#[trigger] directories@[i])@),
                        ) by {
                            let other = sort_key(directories@[i]@);
                            names_are_comparable(name@, other);
                            if i > middle && comes_before(name@, other) {
                                coming_before_is_transitive(key@, name@, other);
                            }
                        }
                    }
                }
                high = middle;
            },
        }
    }
    low
}

/// A sorted list with one more directory in a place for it is sorted.
pub proof fn insertion_keeps_order(
    directories: Seq<DirectoryPath>,
    directory: DirectoryPath,
    position: int,
)
    requires
        sorted_by_name(directories),
        is_place_for(directories, sort_key(directory@), position),
    ensures
        sorted_by_name(directories.insert(position, directory)),
{
    let longer = directories.insert(position, directory);
    let key = sort_key(directory@);
    assert forall|i: int, j: int| 0 <= i < j < longer.len() implies !comes_before(
        sort_key((#[trigger] longer[j])@),
        sort_key((#[trigger] longer[i])@),
    ) by {
        let a = sort_key(longer[i]@);
        let b = sort_key(longer[j]@);
        names_are_comparable(a, b);
        if i < position {
            assert(longer[i] == directories[i]);
            if j > position {
                assert(longer[j] == directories[j - 1]);
            } else if j == position {
                if position < directories.len() {
                    assert(!comes_before(sort_key(directories[position]@), a));
                }
            } else {
                assert(longer[j] == directories[j]);
            }
        } else {
            assert(longer[j] == directories[j - 1]);
            if i > position {
                assert(longer[i] == directories[i - 1]);
            } else if j - 1 > position {
                assert(!comes_before(b, sort_key(directories[position]@)));
            }
        }
    }
}

/// Whether no two of `directories` are named `key`.
pub open spec fn at_most_one_named(directories: Seq<DirectoryPath>, key: Seq<u8>) -> bool {
    forall|i: int, j: int|
        0 <= i < j < directories.len() ==> !(sort_key((#[trigger] directories[i])@) == key
            && sort_key((#[trigger] directories[j])@) == key)
}

/// Whether the names in front of `position` come before `key` and those from there on do not.
spec fn parts_names(directories: Seq<DirectoryPath>, key: Seq<u8>, position: int) -> bool {
    &&& 0 <= position <= directories.len()
    &&& forall|i: int|
        0 <= i < position ==> comes_before(sort_key((#[trigger] directories[i])@), key)
    &&& forall|i: int|
        position <= i < directories.len() ==> !comes_before(
            sort_key((#[trigger] directories[i])@),
            key,
        )
}

proof fn lemma_place_parts_names(directories: Seq<DirectoryPath>, key: Seq<u8>, position: int)
    requires
        sorted_by_name(directories),
        at_most_one_named(directories, key),
        is_place_for(directories, key, position),
    ensures
        parts_names(directories, key, position),
{
    assert forall|i: int| 0 <= i < directories.len() implies (i < position <==> comes_before(
        sort_key((#[trigger] directories[i])@),
        key,
    )) by {
        let name = sort_key(directories[i]@);
        names_are_comparable(name, key);
        if 0 <= position < directories.len() && sort_key(directories[position]@) == key {
            assert(i < position ==> !comes_before(key, name));
            assert(i > position ==> !comes_before(name, key));
        }
    }
}

/// Putting in a directory makes the place for another name one further back if its own name comes
/// before that one, and leaves it where it is if not.
pub proof fn place_moves_with_insertion(
    directories: Seq<DirectoryPath>,
    directory: DirectoryPath,
    position: int,
    key: Seq<u8>,
    place: int,
    new_place: int,
)
    requires
        sorted_by_name(directories),
        sort_key(directory@) != key,
        at_most_one_named(directories, sort_key(directory@)),
        at_most_one_named(directories, key),
        is_place_for(directories, sort_key(directory@), position),
        is_place_for(directories, key, place),
        is_place_for(directories.insert(position, directory), key, new_place),
    ensures
        comes_before(sort_key(directory@), key) ==> position <= place && new_place == place + 1,
        comes_before(key, sort_key(directory@)) ==> place <= position && new_place == place,
{
    let added = sort_key(directory@);
    let longer = directories.insert(position, directory);
    insertion_keeps_order(directories, directory, position);
    lemma_place_parts_names(directories, added, position);
    lemma_place_parts_names(directories, key, place);
    assert forall|i: int, j: int| 0 <= i < j < longer.len() implies !(sort_key(
        (#[trigger] longer[i])@,
    ) == key && sort_key((#[trigger] longer[j])@) == key) by {
        if i != position && j != position {
            let before_i = if i < position { i } else { i - 1 };
            let before_j = if j < position { j } else { j - 1 };
            assert(longer[i] == directories[before_i]);
            assert(longer[j] == directories[before_j]);
        }
    }
    lemma_place_parts_names(longer, key, new_place);
    assert(longer[position] == directory);
    names_are_comparable(added, key);
    if comes_before(added, key) {
        if place < position {
            let name = sort_key(directories[place]@);
            assert(comes_before(name, added) && !comes_before(name, key));
            coming_before_is_transitive(name, added, key);
        }
        if new_place < place + 1 {
            let before = if new_place < position { new_place } else { new_place - 1 };
            assert(new_place == position || longer[new_place] == directories[before]);
        } else if new_place > place + 1 {
            assert(longer[place + 1] == directories[place]);
        }
    } else {
        if position < place {
            let name = sort_key(directories[position]@);
            assert(comes_before(name, key) && !comes_before(name, added));
            coming_before_is_transitive(name, key, added);
        }
        if new_place < place {
            assert(longer[new_place] == directories[new_place]);
        } else if new_place > place {
            assert(place == position || longer[place] == directories[place]);
        }
    }
}

/// One name comes before another if and only if, behind what they have in common at the start, it is
/// at its end or goes on with a smaller byte.
pub proof fn order_is_that_of_the_bytes(a: Seq<u8>, b: Seq<u8>)
    ensures
        comes_before(a, b) <==> exists|n: int|
            0 <= n <= a.len() && n < b.len() && #[trigger] a.take(n) == b.take(n) && (n == a.len()
                || a[n] < b[n]),
    decreases a.len(),
{
    if comes_before(a, b) {
        if a.len() == 0 || a[0] != b[0] {
            assert(a.take(0) == b.take(0));
        } else {
            let shorter_a = a.drop_first();
            let shorter_b = b.drop_first();
            order_is_that_of_the_bytes(shorter_a, shorter_b);
            let n = choose|n: int|
                0 <= n <= shorter_a.len() && n < shorter_b.len() && #[trigger] shorter_a.take(n)
                    == shorter_b.take(n) && (n == shorter_a.len() || shorter_a[n] < shorter_b[n]);
            assert(a.take(n + 1) == seq![a[0]] + shorter_a.take(n));
            assert(b.take(n + 1) == seq![b[0]] + shorter_b.take(n));
            assert(a.take(n + 1) == b.take(n + 1));
        }
    }
    if exists|n: int|
        0 <= n <= a.len() && n < b.len() && #[trigger] a.take(n) == b.take(n) && (n == a.len()
            || a[n] < b[n]) {
        let n = choose|n: int|
            0 <= n <= a.len() && n < b.len() && #[trigger] a.take(n) == b.take(n) && (n == a.len()
                || a[n] < b[n]);
        lemma_common_start(a, b, n);
    }
}

/// Names compare by the first byte behind what they have in common at the start: the smaller byte
/// comes first, and so does the name that ends there. Compared the other way round they stand the
/// other way round.
pub proof fn names_compare_by_their_bytes(
    a: Vec<u8>,
    b: Vec<u8>,
    common: int,
    order: NameOrder,
    reversed: NameOrder,
)
    requires
        0 <= common <= a@.len(),
        common <= b@.len(),
        a@.take(common) == b@.take(common),
        call_ensures(compare_names, (&a, &b), order),
        call_ensures(compare_names, (&b, &a), reversed),
    ensures
        common == a@.len() && common == b@.len() ==> order is Same && reversed is Same,
        common == a@.len() && common < b@.len() ==> order is Before && reversed is After,
        common < a@.len() && common < b@.len() && a@[common] < b@[common] ==> order is Before
            && reversed is After,
{
    order_is_that_of_the_bytes(a@, b@);
    names_are_comparable(a@, b@);
    if common == a@.len() && common == b@.len() {
        assert(a@.take(common) == a@);
        assert(b@.take(common) == b@);
    }
}

/// Of two names of which the second does not come before the first, the first is at its end behind
/// what they have in common at the start, or goes on with a byte that is not greater.
pub proof fn what_stands_ahead_is_not_greater(a: Seq<u8>, b: Seq<u8>, common: int)
    requires
        !comes_before(b, a),
        0 <= common <= a.len(),
        common <= b.len(),
        a.take(common) == b.take(common),
    ensures
        common == a.len() || common < b.len() && a[common] <= b[common],
{
    order_is_that_of_the_bytes(b, a);
    assert(b.take(common) == a.take(common));
}

/// Of two directories in a sorted list, the one that stands ahead has the file name that is smaller by
/// its bytes, or the same: behind what the names have in common at the start it is at its end, or
/// goes on with a byte that is not greater.
pub proof fn sorted_directories_stand_in_byte_order(
    directories: Seq<DirectoryPath>,
    i: int,
    j: int,
    parent_i: Seq<u8>,
    name_i: Seq<u8>,
    parent_j: Seq<u8>,
    name_j: Seq<u8>,
    common: int,
)
    requires
        sorted_by_name(directories),
        0 <= i < j < directories.len(),
        directories[i]@ == parent_i + seq![47u8] + name_i,
        directories[j]@ == parent_j + seq![47u8] + name_j,
        !name_i.contains(47u8) && name_i.len() > 0 && name_i != seq![46u8] && name_i != seq![
            46u8,
            46u8,
        ],
        !name_j.contains(47u8) && name_j.len() > 0 && name_j != seq![46u8] && name_j != seq![
            46u8,
            46u8,
        ],
        0 <= common <= name_i.len(),
        common <= name_j.len(),
        name_i.take(common) == name_j.take(common),
    ensures
        common == name_i.len() || common < name_j.len() && name_i[common] <= name_j[common],
{
    last_component_decides(parent_i, name_i);
    last_component_decides(parent_j, name_j);
    assert(!comes_before(sort_key(directories[j]@), sort_key(directories[i]@)));
    what_stands_ahead_is_not_greater(name_i, name_j, common);
}

/// In a sorted list, the names ahead of the place that is found for a name do not come after it, and
/// the names from that place on do not come before it.
pub proof fn place_parts_the_names(
    directories: Vec<DirectoryPath>,
    key: Vec<u8>,
    position: usize,
    i: int,
    parent: Seq<u8>,
    name: Seq<u8>,
    common: int,
)
    requires
        call_ensures(find_place, (&directories, &key), position),
        sorted_by_name(directories@),
        0 <= i < directories@.len(),
        directories@[i]@ == parent + seq![47u8] + name,
        !name.contains(47u8) && name.len() > 0 && name != seq![46u8] && name != seq![46u8, 46u8],
        0 <= common <= name.len(),
        common <= key@.len(),
        name.take(common) == key@.take(common),
    ensures
        position <= directories@.len(),
        i < position ==> common == name.len() || common < key@.len() && name[common]
            <= key@[common],
        i >= position ==> common == key@.len() || common < name.len() && key@[common]
            <= name[common],
{
    last_component_decides(parent, name);
    names_are_comparable(name, key@);
    if position < directories@.len() && sort_key(directories@[position as int]@) == key@ {
        assert(i < position ==> !comes_before(key@, name));
        assert(i > position ==> !comes_before(name, key@));
    }
    if i < position {
        what_stands_ahead_is_not_greater(name, key@, common);
    } else {
        assert(key@.take(common) == name.take(common));
        what_stands_ahead_is_not_greater(key@, name, common);
    }
}

} // verus!
