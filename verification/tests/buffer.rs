use konsone::tribuf::Buffer;

#[test]
fn test_buffer() {
    let mut buf = Buffer::<i32>::new();
    buf.push(1);
    assert_eq!(buf.to_vec(), vec![1, 0, 0]);
    buf.push(2);
    assert_eq!(buf.to_vec(), vec![2, 1, 0]);
    buf.push(3);
    buf.push(4);
    buf.push(5);
    buf.push(6);
    assert_eq!(buf.to_vec(), vec![6, 5, 4]);
}
