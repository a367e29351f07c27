use blockchain_workshop::types::Chain;

#[test]
fn test_append() {
    let mut chain = Chain::<u32>::new();
    chain.append(3);
    chain.append(1);

    assert_eq!(chain.head(), Some(&1));
}

#[test]
fn test_append_loop() {
    let mut chain = Chain::<u32>::new();
    chain.append(1);
    chain.append(2);
    chain.append(3);
    chain.append(4);

    let mut iter = chain.iter();
    let mut seen = Vec::new();
    while let Some(i) = iter.next() {
        seen.push(*i);
    }
    assert_eq!(seen, vec![4, 3, 2, 1]);
}
