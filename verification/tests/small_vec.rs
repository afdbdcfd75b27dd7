use smallvec::SmallVec;

#[test]
fn new_is_inline_and_empty() {
    let v: SmallVec<u8, 4> = SmallVec::new();
    assert_eq!(v.len(), 0);
    assert!(v.is_empty());
    assert!(!v.spilled());
    assert_eq!(v.capacity(), 4);
    assert_eq!(SmallVec::<u8, 4>::inline_size(), 4);
}

#[test]
fn push_within_inline_size_stays_inline() {
    let mut v: SmallVec<u32, 4> = SmallVec::new();
    for x in 0..4u32 {
        v.push(x);
    }
    assert!(!v.spilled());
    assert_eq!(v.capacity(), 4);
    assert_eq!(v.as_slice(), &[0, 1, 2, 3]);
}

#[test]
fn push_beyond_inline_size_spills_to_next_power_of_two() {
    let mut v: SmallVec<u32, 4> = SmallVec::new();
    for x in 0..5u32 {
        v.push(x);
    }
    assert!(v.spilled());
    assert_eq!(v.capacity(), 8);
    assert_eq!(v.as_slice(), &[0, 1, 2, 3, 4]);
    for x in 5..9u32 {
        v.push(x);
    }
    assert_eq!(v.capacity(), 16);
    assert_eq!(v.len(), 9);
}

#[test]
fn from_vec_of_nonempty_vec_is_spilled() {
    let v: SmallVec<u8, 16> = SmallVec::from_vec(vec![1, 2, 3]);
    assert!(v.spilled());
    assert!(v.capacity() >= 3);
    assert_eq!(v.as_slice(), &[1, 2, 3]);
}

#[test]
fn from_vec_of_zero_capacity_vec_is_inline() {
    let v: SmallVec<u16, 2> = SmallVec::from_vec(Vec::with_capacity(0));
    assert!(!v.spilled());
    assert_eq!(v.len(), 0);
    assert_eq!(v.capacity(), 2);
}

#[test]
fn from_vec_with_capacity_zero_is_new() {
    let v: SmallVec<u8, 3> = SmallVec::from_vec_with_capacity(Vec::new(), 0);
    assert!(!v.spilled());
    assert_eq!(v.capacity(), 3);
    assert!(v.is_empty());
}

#[test]
fn from_vec_with_capacity_keeps_that_capacity() {
    let v: SmallVec<u8, 3> = SmallVec::from_vec_with_capacity(vec![9, 8], 7);
    assert!(v.spilled());
    assert_eq!(v.capacity(), 7);
    assert_eq!(v.as_slice(), &[9, 8]);
}

#[test]
fn push_onto_small_heap_allocation_moves_back_inline() {
    let mut v: SmallVec<u8, 4> = SmallVec::from_vec_with_capacity(vec![1], 1);
    assert!(v.spilled());
    v.push(2);
    assert!(!v.spilled());
    assert_eq!(v.capacity(), 4);
    assert_eq!(v.as_slice(), &[1, 2]);
}

#[test]
fn reserve_grows_to_power_of_two_of_required_length() {
    let mut v: SmallVec<u8, 2> = SmallVec::new();
    v.push(1);
    v.reserve(1);
    assert!(!v.spilled());
    v.reserve(4);
    assert!(v.spilled());
    assert_eq!(v.capacity(), 8);
    assert_eq!(v.as_slice(), &[1]);
}

#[test]
fn grow_to_inline_size_unspills() {
    let mut v: SmallVec<u8, 4> = SmallVec::from_vec(vec![1, 2]);
    assert!(v.spilled());
    v.grow(3);
    assert!(!v.spilled());
    assert_eq!(v.capacity(), 4);
    v.grow(10);
    assert!(v.spilled());
    assert_eq!(v.capacity(), 10);
    assert_eq!(v.as_slice(), &[1, 2]);
}

#[test]
fn append_moves_everything_and_drains_other() {
    let mut a: SmallVec<i64, 4> = SmallVec::from_vec(vec![1, 2, 3]);
    let mut b: SmallVec<i64, 4> = SmallVec::from_vec(vec![4, 5]);
    let b_spilled = b.spilled();
    let b_capacity = b.capacity();
    a.append(&mut b);
    assert_eq!(a.len(), 5);
    assert_eq!(a.as_slice(), &[1, 2, 3, 4, 5]);
    assert_eq!(b.len(), 0);
    assert_eq!(b.spilled(), b_spilled);
    assert_eq!(b.capacity(), b_capacity);
    assert_eq!(a.capacity(), 8);
}

#[test]
fn append_into_inline_vector_with_room() {
    let mut a: SmallVec<u8, 8> = SmallVec::new();
    a.push(1);
    let mut b: SmallVec<u8, 2> = SmallVec::new();
    b.push(2);
    b.push(3);
    a.append(&mut b);
    assert!(!a.spilled());
    assert_eq!(a.as_slice(), &[1, 2, 3]);
    assert!(b.is_empty());
}

#[test]
fn shrink_to_fit_moves_short_vector_inline() {
    let mut v: SmallVec<u8, 4> = SmallVec::from_vec(vec![1, 2, 3]);
    assert!(v.spilled());
    v.shrink_to_fit();
    assert!(!v.spilled());
    assert_eq!(v.as_slice(), &[1, 2, 3]);
}

#[test]
fn shrink_to_fit_trims_long_heap_vector_to_its_length() {
    let mut v: SmallVec<u8, 2> = SmallVec::new();
    for x in 0..5u8 {
        v.push(x);
    }
    assert_eq!(v.capacity(), 8);
    v.shrink_to_fit();
    assert!(v.spilled());
    assert_eq!(v.capacity(), 5);
    assert_eq!(v.as_slice(), &[0, 1, 2, 3, 4]);
}

#[test]
fn shrink_to_fit_leaves_inline_vector_alone() {
    let mut v: SmallVec<u8, 2> = SmallVec::new();
    v.push(1);
    v.shrink_to_fit();
    assert!(!v.spilled());
    assert_eq!(v.capacity(), 2);
}

#[test]
fn leak_hands_out_the_elements_of_a_spilled_vector() {
    let v: SmallVec<u8, 1> = SmallVec::from_vec(vec![5, 6, 7]);
    assert!(v.spilled());
    let slice: &mut [u8] = v.leak();
    assert_eq!(slice, &[5, 6, 7]);
    slice[0] = 1;
    assert_eq!(slice, &[1, 6, 7]);
}
