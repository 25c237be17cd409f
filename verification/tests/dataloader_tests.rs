use ai_dataloader::{Collated, DataLoader, NoOpCollate, Sample};

fn int_dataset(xs: &[i64]) -> Vec<Sample> {
    xs.iter().map(|x| Sample::Int(*x)).collect()
}

#[test]
fn len() {
    let dataset = int_dataset(&[1, 2, 3, 4, 5, 6, 7, 8, 9, 10]);
    let dataloader = DataLoader::builder(dataset)
        .batch_size(2)
        .drop_last()
        .build()
        .unwrap();
    assert_eq!(dataloader.len(), dataloader.batch_sampler.len());
    assert_eq!(dataloader.len(), 5);
    let mut iter = dataloader.iter();
    assert_eq!(iter.len(), 5);
    iter.next();
    assert_eq!(iter.len(), 4);
}

#[test]
fn one_dimension_basic() {
    let dataset = int_dataset(&[1, 2, 3, 4, 5, 6, 7, 8, 9, 10]);
    let dataloader = DataLoader::builder(dataset).batch_size(2).build().unwrap();

    let mut iter = dataloader.iter();
    assert_eq!(iter.next(), Some(Ok(Collated::Stacked(vec![1, 2]))));
    assert_eq!(iter.next(), Some(Ok(Collated::Stacked(vec![3, 4]))));
    assert_eq!(iter.next(), Some(Ok(Collated::Stacked(vec![5, 6]))));
    assert_eq!(iter.next(), Some(Ok(Collated::Stacked(vec![7, 8]))));
    assert_eq!(iter.next(), Some(Ok(Collated::Stacked(vec![9, 10]))));
    assert_eq!(iter.next(), None);
}

#[test]
fn two_iteration() {
    let dataset = int_dataset(&[1, 2, 3, 4]);
    let dataloader = DataLoader::builder(dataset).batch_size(2).build().unwrap();

    let mut iter = dataloader.iter();
    assert_eq!(iter.next(), Some(Ok(Collated::Stacked(vec![1, 2]))));
    assert_eq!(iter.next(), Some(Ok(Collated::Stacked(vec![3, 4]))));
    assert_eq!(iter.next(), None);
    let mut iter = dataloader.iter();
    assert_eq!(iter.next(), Some(Ok(Collated::Stacked(vec![1, 2]))));
    assert_eq!(iter.next(), Some(Ok(Collated::Stacked(vec![3, 4]))));
    assert_eq!(iter.next(), None);
}

#[test]
fn one_dimension_basic_string() {
    let dataset = vec![
        Sample::Text(String::from("a")),
        Sample::Text(String::from("b")),
    ];
    let dataloader = DataLoader::builder(dataset).build().unwrap();

    let mut iter = dataloader.iter();
    assert_eq!(
        iter.next(),
        Some(Ok(Collated::Texts(vec![String::from("a")])))
    );
    assert_eq!(
        iter.next(),
        Some(Ok(Collated::Texts(vec![String::from("b")])))
    );
    assert_eq!(iter.next(), None);
}

#[test]
fn collate() {
    let dataset = int_dataset(&[1, 2, 3, 4, 5, 6, 7, 8, 9, 10]);

    let dataloader = DataLoader::builder(dataset)
        .batch_size(2)
        .collate_fn(NoOpCollate)
        .build()
        .unwrap();

    let mut iter = dataloader.iter();

    assert_eq!(
        iter.next(),
        Some(Ok(Collated::Raw(vec![Sample::Int(1), Sample::Int(2)])))
    );
    assert_eq!(
        iter.next(),
        Some(Ok(Collated::Raw(vec![Sample::Int(3), Sample::Int(4)])))
    );
    assert_eq!(
        iter.next(),
        Some(Ok(Collated::Raw(vec![Sample::Int(5), Sample::Int(6)])))
    );
    assert_eq!(
        iter.next(),
        Some(Ok(Collated::Raw(vec![Sample::Int(7), Sample::Int(8)])))
    );
    assert_eq!(
        iter.next(),
        Some(Ok(Collated::Raw(vec![Sample::Int(9), Sample::Int(10)])))
    );
    assert_eq!(iter.next(), None);
}

#[test]
fn vec_of_token() {
    let dataset = vec![
        Sample::Tuple(vec![
            Sample::Int(0),
            Sample::List(vec![
                Sample::Int(1),
                Sample::Int(23),
                Sample::Int(4),
                Sample::Int(0),
            ]),
        ]),
        Sample::Tuple(vec![
            Sample::Int(1),
            Sample::List(vec![
                Sample::Int(4),
                Sample::Int(0),
                Sample::Int(0),
                Sample::Int(0),
            ]),
        ]),
        Sample::Tuple(vec![
            Sample::Int(1),
            Sample::List(vec![
                Sample::Int(8),
                Sample::Int(23),
                Sample::Int(12),
                Sample::Int(3),
            ]),
        ]),
        Sample::Tuple(vec![
            Sample::Int(0),
            Sample::List(vec![
                Sample::Int(2),
                Sample::Int(45),
                Sample::Int(4),
                Sample::Int(0),
            ]),
        ]),
    ];

    let loader = DataLoader::builder(dataset).batch_size(2).build().unwrap();

    let mut iter = loader.iter();

    assert_eq!(
        iter.next(),
        Some(Ok(Collated::Fields(vec![
            Collated::Stacked(vec![0, 1]),
            Collated::Entries(vec![
                Collated::Stacked(vec![1, 4]),
                Collated::Stacked(vec![23, 0]),
                Collated::Stacked(vec![4, 0]),
                Collated::Stacked(vec![0, 0]),
            ]),
        ])))
    );
}
