use rlox::extension_traits::VecLast;

#[test]
fn last_and_last_mut_of_a_vector() {
    let mut v = vec![1, 2, 3];
    assert_eq!(Some(&3), VecLast::last(&v));

    v.push(4);
    assert_eq!(Some(&4), VecLast::last(&v));

    *VecLast::last_mut(&mut v).unwrap() = 42;
    assert_eq!(vec![1, 2, 3, 42], v);

    let mut empty: Vec<()> = vec![];
    assert_eq!(None, VecLast::last(&empty));
    assert_eq!(None, VecLast::last_mut(&mut empty));
}

#[test]
fn last_mut_of_a_single_item() {
    let mut v = vec![0];
    *VecLast::last_mut(&mut v).unwrap() = 1337;
    assert_eq!(vec![1337], v);
}
