use stal::SetExpr::Diff;
use stal::SetExpr::Inter;
use stal::SetExpr::Key;
use stal::SetExpr::Union;
use stal::Stal;

#[test]
fn noop() {
    let key = b"hello".to_vec();
    let set = Key(key.clone());
    let mut ids = vec![];
    let mut ops = vec![];
    assert_eq!(set.convert(&mut ids, &mut ops), key);
    assert_eq!(ids.len(), 0);
    assert_eq!(ops.len(), 0);
}

#[test]
fn sinter() {
    let key1 = b"hello".to_vec();
    let key2 = b"world".to_vec();
    let set = Inter(vec![Key(key1.clone()), Key(key2.clone())]);
    let mut ids = vec![];
    let mut ops = vec![];
    assert_eq!(set.convert(&mut ids, &mut ops), b"stal:0");
    assert_eq!(ids, vec!["stal:0".to_string()]);
    assert_eq!(
        ops,
        vec![vec![b"SINTERSTORE".to_vec(), b"stal:0".to_vec(), key1, key2,]]
    );
}

#[test]
fn sunion() {
    let key1 = b"hello".to_vec();
    let key2 = b"world".to_vec();
    let set = Union(vec![Key(key1.clone()), Key(key2.clone())]);
    let mut ids = vec![];
    let mut ops = vec![];
    assert_eq!(set.convert(&mut ids, &mut ops), b"stal:0");
    assert_eq!(ids, vec!["stal:0".to_string()]);
    assert_eq!(
        ops,
        vec![vec![b"SUNIONSTORE".to_vec(), b"stal:0".to_vec(), key1, key2,]]
    );
}

#[test]
fn sdiff() {
    let key1 = b"hello".to_vec();
    let key2 = b"world".to_vec();
    let set = Diff(vec![Key(key1.clone()), Key(key2.clone())]);
    let mut ids = vec![];
    let mut ops = vec![];
    assert_eq!(set.convert(&mut ids, &mut ops), b"stal:0");
    assert_eq!(ids, vec!["stal:0".to_string()]);
    assert_eq!(
        ops,
        vec![vec![b"SDIFFSTORE".to_vec(), b"stal:0".to_vec(), key1, key2,]]
    );
}

#[test]
fn nesting() {
    let key1 = b"foo".to_vec();
    let key2 = b"bar".to_vec();
    let key3 = b"baz".to_vec();
    let set = Diff(vec![
        Inter(vec![Key(key1.clone()), Key(key2.clone())]),
        Key(key3.clone()),
    ]);
    let mut ids = vec![];
    let mut ops = vec![];
    assert_eq!(set.convert(&mut ids, &mut ops), b"stal:0".to_vec());
    assert_eq!(ids, vec!["stal:0".to_string(), "stal:1".to_string(),]);
    assert_eq!(
        ops,
        vec![
            vec![b"SINTERSTORE".to_vec(), b"stal:1".to_vec(), key1, key2,],
            vec![
                b"SDIFFSTORE".to_vec(),
                b"stal:0".to_vec(),
                b"stal:1".to_vec(),
                key3,
            ],
        ]
    );
}

#[test]
fn explain() {
    let key1 = b"foo".to_vec();
    let key2 = b"bar".to_vec();
    let key3 = b"baz".to_vec();
    let set = Diff(vec![
        Inter(vec![Key(key1.clone()), Key(key2.clone())]),
        Key(key3.clone()),
    ]);
    assert_eq!(
        Stal::new("SMEMBERS".to_string(), set).explain(),
        vec![
            vec![b"SINTERSTORE".to_vec(), b"stal:1".to_vec(), key1, key2,],
            vec![
                b"SDIFFSTORE".to_vec(),
                b"stal:0".to_vec(),
                b"stal:1".to_vec(),
                key3,
            ],
            vec![b"SMEMBERS".to_vec(), b"stal:0".to_vec(),],
        ]
    );
}

#[test]
fn solve() {
    let key1 = b"foo".to_vec();
    let key2 = b"bar".to_vec();
    let key3 = b"baz".to_vec();
    let set = Diff(vec![
        Inter(vec![Key(key1.clone()), Key(key2.clone())]),
        Key(key3.clone()),
    ]);
    assert_eq!(
        Stal::new("SMEMBERS".to_string(), set).solve(),
        (
            vec![
                vec![b"MULTI".to_vec(),],
                vec![b"SINTERSTORE".to_vec(), b"stal:1".to_vec(), key1, key2,],
                vec![
                    b"SDIFFSTORE".to_vec(),
                    b"stal:0".to_vec(),
                    b"stal:1".to_vec(),
                    key3,
                ],
                vec![b"SMEMBERS".to_vec(), b"stal:0".to_vec(),],
                vec![b"DEL".to_vec(), b"stal:0".to_vec(), b"stal:1".to_vec(),],
                vec![b"EXEC".to_vec(),],
            ],
            3
        )
    );
}

#[test]
fn solve_noop() {
    let key1 = b"foo".to_vec();
    let set = Key(key1.clone());
    assert_eq!(
        Stal::new("SMEMBERS".to_string(), set).solve(),
        (
            vec![
                vec![b"MULTI".to_vec(),],
                vec![b"SMEMBERS".to_vec(), key1,],
                vec![b"EXEC".to_vec(),],
            ],
            1
        )
    );
}

#[test]
fn ids() {
    let key1 = b"foo".to_vec();
    let set = Key(key1.clone());
    assert_eq!(
        set.ids().solve(),
        (
            vec![
                vec![b"MULTI".to_vec(),],
                vec![b"SMEMBERS".to_vec(), key1,],
                vec![b"EXEC".to_vec(),],
            ],
            1
        )
    );
}

#[test]
fn nested_ids() {
    let key1 = b"foo".to_vec();
    let key2 = b"bar".to_vec();
    let key3 = b"baz".to_vec();
    let set = Diff(vec![
        Inter(vec![Key(key1.clone()), Key(key2.clone())]),
        Key(key3.clone()),
    ]);
    assert_eq!(
        set.ids().solve(),
        (
            vec![
                vec![b"MULTI".to_vec(),],
                vec![b"SINTERSTORE".to_vec(), b"stal:0".to_vec(), key1, key2,],
                vec![b"SDIFF".to_vec(), b"stal:0".to_vec(), key3,],
                vec![b"DEL".to_vec(), b"stal:0".to_vec(),],
                vec![b"EXEC".to_vec(),],
            ],
            2
        )
    );
}

#[test]
fn nested_into_ids() {
    let key1 = b"foo".to_vec();
    let key2 = b"bar".to_vec();
    let key3 = b"baz".to_vec();
    let set = Diff(vec![
        Inter(vec![Key(key1.clone()), Key(key2.clone())]),
        Key(key3.clone()),
    ]);
    assert_eq!(
        set.into_ids().solve(),
        (
            vec![
                vec![b"MULTI".to_vec(),],
                vec![b"SINTERSTORE".to_vec(), b"stal:0".to_vec(), key1, key2,],
                vec![b"SDIFF".to_vec(), b"stal:0".to_vec(), key3,],
                vec![b"DEL".to_vec(), b"stal:0".to_vec(),],
                vec![b"EXEC".to_vec(),],
            ],
            2
        )
    );
}

#[test]
fn doc_example() {
    let foobar = Inter(vec![Key(b"foo".to_vec()), Key(b"bar".to_vec())]);
    let foobar_nobaz = Diff(vec![foobar, Key(b"baz".to_vec())]);
    let foobar_nobaz_andqux = Union(vec![Key(b"qux".to_vec()), foobar_nobaz]);

    assert_eq!(
        Stal::new("SMEMBERS".to_string(), foobar_nobaz_andqux).solve(),
        (
            vec![
                vec![b"MULTI".to_vec()],
                vec![
                    b"SINTERSTORE".to_vec(),
                    b"stal:2".to_vec(),
                    b"foo".to_vec(),
                    b"bar".to_vec()
                ],
                vec![
                    b"SDIFFSTORE".to_vec(),
                    b"stal:1".to_vec(),
                    b"stal:2".to_vec(),
                    b"baz".to_vec()
                ],
                vec![
                    b"SUNIONSTORE".to_vec(),
                    b"stal:0".to_vec(),
                    b"qux".to_vec(),
                    b"stal:1".to_vec()
                ],
                vec![b"SMEMBERS".to_vec(), b"stal:0".to_vec()],
                vec![
                    b"DEL".to_vec(),
                    b"stal:0".to_vec(),
                    b"stal:1".to_vec(),
                    b"stal:2".to_vec()
                ],
                vec![b"EXEC".to_vec()],
            ],
            4
        )
    );
}

#[test]
fn two_digit_temp_ids() {
    // Eleven nested operator nodes: temporary numbers reach two decimal
    // digits and must stay dense, with no gaps.
    let mut set = Key(b"k".to_vec());
    for _ in 0..11 {
        set = Union(vec![Key(b"k".to_vec()), set]);
    }
    let mut ids = vec![];
    let mut ops = vec![];
    assert_eq!(set.convert(&mut ids, &mut ops), b"stal:0".to_vec());
    assert_eq!(ids.len(), 11);
    for (i, id) in ids.iter().enumerate() {
        assert_eq!(id, &format!("stal:{}", i));
    }
    assert_eq!(ops.len(), 11);
    // the innermost node is emitted first and got the highest number
    assert_eq!(
        ops[0],
        vec![
            b"SUNIONSTORE".to_vec(),
            b"stal:10".to_vec(),
            b"k".to_vec(),
            b"k".to_vec()
        ]
    );
}

#[test]
fn solve_deterministic() {
    let set = || {
        Diff(vec![
            Inter(vec![Key(b"foo".to_vec()), Key(b"bar".to_vec())]),
            Key(b"baz".to_vec()),
        ])
    };
    let first = Stal::new("SMEMBERS".to_string(), set()).solve();
    let second = Stal::new("SMEMBERS".to_string(), set()).solve();
    assert_eq!(first, second);
}

#[test]
fn explain_deterministic() {
    let program = Stal::new(
        "SMEMBERS".to_string(),
        Union(vec![Key(b"a".to_vec()), Key(b"b".to_vec())]),
    );
    assert_eq!(program.explain(), program.explain());
}

#[test]
fn single_child_operator() {
    let set = Union(vec![Key(b"only".to_vec())]);
    let mut ids = vec![];
    let mut ops = vec![];
    assert_eq!(set.convert(&mut ids, &mut ops), b"stal:0".to_vec());
    assert_eq!(ids, vec!["stal:0".to_string()]);
    assert_eq!(
        ops,
        vec![vec![
            b"SUNIONSTORE".to_vec(),
            b"stal:0".to_vec(),
            b"only".to_vec()
        ]]
    );
}

#[test]
fn empty_key() {
    let set = Key(vec![]);
    let mut ids = vec![];
    let mut ops = vec![];
    assert_eq!(set.convert(&mut ids, &mut ops), Vec::<u8>::new());
    assert_eq!(ids.len(), 0);
    assert_eq!(ops.len(), 0);
}

#[test]
fn from_template_position_past_end() {
    // A position one past the end of the template discards the result key:
    // the command is emitted unchanged.
    let program = Stal::from_template(
        vec![b"SCARD".to_vec()],
        vec![(Key(b"foo".to_vec()), 1)],
    );
    assert_eq!(program.explain(), vec![vec![b"SCARD".to_vec()]]);
}

#[test]
fn from_template_two_positions() {
    // An arbitrary template with two trees, each filling its own position.
    let program = Stal::from_template(
        vec![b"SINTERSTORE".to_vec(), b"dest".to_vec(), vec![], vec![]],
        vec![
            (Union(vec![Key(b"a".to_vec()), Key(b"b".to_vec())]), 2),
            (Key(b"c".to_vec()), 3),
        ],
    );
    assert_eq!(
        program.solve(),
        (
            vec![
                vec![b"MULTI".to_vec()],
                vec![
                    b"SUNIONSTORE".to_vec(),
                    b"stal:0".to_vec(),
                    b"a".to_vec(),
                    b"b".to_vec()
                ],
                vec![
                    b"SINTERSTORE".to_vec(),
                    b"dest".to_vec(),
                    b"stal:0".to_vec(),
                    b"c".to_vec()
                ],
                vec![b"DEL".to_vec(), b"stal:0".to_vec()],
                vec![b"EXEC".to_vec()],
            ],
            2
        )
    );
}

#[test]
fn scard_on_set() {
    let myset = Key(b"my set".to_vec());
    assert_eq!(
        Stal::new("SCARD".to_string(), myset).solve(),
        (
            vec![
                vec![b"MULTI".to_vec()],
                vec![b"SCARD".to_vec(), b"my set".to_vec()],
                vec![b"EXEC".to_vec()],
            ],
            1
        )
    );
}

#[test]
fn ids_leaves_original_usable() {
    let set = Union(vec![Key(b"a".to_vec()), Key(b"b".to_vec())]);
    let first = set.ids().solve();
    let second = set.ids().solve();
    assert_eq!(first, second);
    // the original tree is untouched and still compiles the same way
    let mut ids = vec![];
    let mut ops = vec![];
    set.convert(&mut ids, &mut ops);
    assert_eq!(ids, vec!["stal:0".to_string()]);
}

#[test]
fn union_of_three() {
    let set = Union(vec![
        Key(b"a".to_vec()),
        Key(b"b".to_vec()),
        Key(b"c".to_vec()),
    ]);
    let program = set.ids();
    assert_eq!(
        program.solve(),
        (
            vec![
                vec![b"MULTI".to_vec()],
                vec![
                    b"SUNION".to_vec(),
                    b"a".to_vec(),
                    b"b".to_vec(),
                    b"c".to_vec()
                ],
                vec![b"EXEC".to_vec()],
            ],
            1
        )
    );
}
