//! Linear search by a key that a function computes from each item.
use vstd::prelude::*;

verus! {

/// Some clone of `x`, handed to `f`, gave a key whose text is `key`.
pub open spec fn key_is<T: Clone, F: Fn(T) -> String>(f: F, x: T, key: Seq<char>) -> bool {
    exists|c: T, k: String| #[trigger] cloned(x, c) && #[trigger] f.ensures((c,), k) && k@ == key
}

/// Some clone of `x`, handed to `f`, gave a key whose text differs from `key`.
pub open spec fn key_is_not<T: Clone, F: Fn(T) -> String>(f: F, x: T, key: Seq<char>) -> bool {
    exists|c: T, k: String| #[trigger] cloned(x, c) && #[trigger] f.ensures((c,), k) && k@ != key
}

/// `f` gives keys of one text for all clones of one item: the key of an item is a function
/// of the item.
pub open spec fn keys_agree<T: Clone, F: Fn(T) -> String>(f: F) -> bool {
    forall|x: T, c1: T, c2: T, k1: String, k2: String|
        #![trigger cloned(x, c1), cloned(x, c2), f.ensures((c1,), k1), f.ensures((c2,), k2)]
        cloned(x, c1) && cloned(x, c2) && f.ensures((c1,), k1) && f.ensures((c2,), k2) ==> k1@
            == k2@
}

/// `i` is the index of the first item of `items` whose key is `key`.
pub open spec fn first_match<T: Clone, F: Fn(T) -> String>(
    f: F,
    items: Seq<T>,
    key: Seq<char>,
    i: int,
) -> bool {
    &&& 0 <= i < items.len()
    &&& key_is(f, items[i], key)
    &&& forall|j: int| 0 <= j < i ==> key_is_not(f, #[trigger] items[j], key)
}

/// No item of `items` has `key` as its key.
pub open spec fn no_match<T: Clone, F: Fn(T) -> String>(f: F, items: Seq<T>, key: Seq<char>) -> bool {
    forall|j: int| 0 <= j < items.len() ==> key_is_not(f, #[trigger] items[j], key)
}

/// What `find_with_index` gives: a clone of the first matching item with its index, or
/// `None` where no item matches.
pub open spec fn found_with_index<T: Clone, F: Fn(T) -> String>(
    f: F,
    items: Seq<T>,
    key: Seq<char>,
    res: Option<(T, usize)>,
) -> bool {
    match res {
        Some((item, i)) => first_match(f, items, key, i as int) && cloned(items[i as int], item),
        None => no_match(f, items, key),
    }
}

/// What `find` gives: a clone of the first matching item, or `None` where no item matches.
pub open spec fn found<T: Clone, F: Fn(T) -> String>(
    f: F,
    items: Seq<T>,
    key: Seq<char>,
    res: Option<T>,
) -> bool {
    match res {
        Some(item) => exists|i: int| #[trigger]
            first_match(f, items, key, i) && cloned(items[i], item),
        None => no_match(f, items, key),
    }
}

/// The first item of `array` whose key, computed by `transition` from a clone of the item,
/// equals `key`, together with its index.
pub fn find_with_index<T: Clone, F: Fn(T) -> String>(array: &[T], key: String, transition: F) -> (res:
    Option<(T, usize)>)
    requires
        forall|x: T| #[trigger] transition.requires((x,)),
    ensures
        found_with_index(transition, array@, key@, res),
{
    let mut i: usize = 0;
    while i < array.len()
        invariant
            i <= array@.len(),
            forall|x: T| #[trigger] transition.requires((x,)),
            forall|j: int| 0 <= j < i ==> key_is_not(transition, #[trigger] array@[j], key@),
        decreases array@.len() - i,
    {
        let item = &array[i];
        let c = item.clone();
        let k = transition(c);
        if key == k {
            assert(key_is(transition, array@[i as int], key@)) by {
                assert(cloned(array@[i as int], c) && transition.ensures((c,), k));
            }
            return Some((item.clone(), i));
        }
        assert(key_is_not(transition, array@[i as int], key@)) by {
            assert(cloned(array@[i as int], c) && transition.ensures((c,), k));
        }
        i = i + 1;
    }
    None
}

/// The first item of `array` whose key, computed by `transition`, equals `key`.
pub fn find<T: Clone, F: Fn(T) -> String>(array: &[T], key: String, transition: F) -> (res: Option<T>)
    requires
        forall|x: T| #[trigger] transition.requires((x,)),
    ensures
        found(transition, array@, key@, res),
{
    if let Some((item, i)) = find_with_index(array, key, transition) {
        assert(first_match(transition, array@, key@, i as int));
        return Some(item);
    }
    None
}

/// Where keys are a function of the item, no item both has and lacks a key.
proof fn lemma_key_exclusive<T: Clone, F: Fn(T) -> String>(f: F, x: T, key: Seq<char>)
    requires
        keys_agree(f),
    ensures
        !(key_is(f, x, key) && key_is_not(f, x, key)),
{
    if key_is(f, x, key) && key_is_not(f, x, key) {
        let (c1, k1) = choose|c: T, k: String|
            #[trigger] cloned(x, c) && #[trigger] f.ensures((c,), k) && k@ == key;
        let (c2, k2) = choose|c: T, k: String|
            #[trigger] cloned(x, c) && #[trigger] f.ensures((c,), k) && k@ != key;
        assert(k1@ == k2@);
    }
}

/// Where the key of an item is a function of the item, `find` gives what `find_with_index`
/// gives without the index: both find an item, at the same index, or neither does.
pub proof fn law_find_is_find_with_index<T: Clone, F: Fn(T) -> String>(
    transition: F,
    items: Seq<T>,
    key: Seq<char>,
    with_index: Option<(T, usize)>,
    plain: Option<T>,
)
    requires
        keys_agree(transition),
        found_with_index(transition, items, key, with_index),
        found(transition, items, key, plain),
    ensures
        match (with_index, plain) {
            (Some((a, i)), Some(b)) => cloned(items[i as int], a) && cloned(items[i as int], b),
            (None, None) => true,
            _ => false,
        },
{
    match (with_index, plain) {
        (Some((a, i)), Some(b)) => {
            let j = choose|j: int| #[trigger]
                first_match(transition, items, key, j) && cloned(items[j], b);
            if j < i {
                lemma_key_exclusive(transition, items[j], key);
            }
            if (i as int) < j {
                lemma_key_exclusive(transition, items[i as int], key);
            }
        },
        (Some((a, i)), None) => {
            lemma_key_exclusive(transition, items[i as int], key);
        },
        (None, Some(b)) => {
            let j = choose|j: int| #[trigger]
                first_match(transition, items, key, j) && cloned(items[j], b);
            lemma_key_exclusive(transition, items[j], key);
        },
        (None, None) => {},
    }
}

} // verus!
