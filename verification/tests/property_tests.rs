use ai_dataloader::{
    CollateError, Collated, ConfigurationError, DataLoader, DefaultCollate, NoOpCollate, Sample,
    SamplerKind, ShuffleBuffer, StreamBatcher,
};

fn int_dataset(xs: &[i64]) -> Vec<Sample> {
    xs.iter().map(|x| Sample::Int(*x)).collect()
}

#[test]
fn sequential_batches_cover_dataset() {
    let values: Vec<i64> = (0..7).collect();
    let loader = DataLoader::builder(int_dataset(&values))
        .batch_size(3)
        .collate_fn(NoOpCollate)
        .build()
        .unwrap();
    assert_eq!(loader.len(), 3);
    let mut seen: Vec<i64> = Vec::new();
    let mut iter = loader.iter();
    while let Some(batch) = iter.next() {
        match batch.unwrap() {
            Collated::Raw(samples) => {
                assert!(samples.len() <= 3);
                for s in samples {
                    match s {
                        Sample::Int(x) => seen.push(x),
                        _ => panic!("expected a scalar"),
                    }
                }
            }
            _ => panic!("expected a raw batch"),
        }
    }
    assert_eq!(seen, values);
}

#[test]
fn drop_last_floors_the_count() {
    let values: Vec<i64> = (0..7).collect();
    let loader = DataLoader::builder(int_dataset(&values))
        .batch_size(3)
        .drop_last()
        .collate_fn(NoOpCollate)
        .build()
        .unwrap();
    assert_eq!(loader.len(), 2);
    let mut count = 0;
    let mut iter = loader.iter();
    while let Some(batch) = iter.next() {
        let batch = batch.unwrap();
        match batch {
            Collated::Raw(samples) => assert_eq!(samples.len(), 3),
            _ => panic!("expected a raw batch"),
        }
        count += 1;
    }
    assert_eq!(count, 2);
}

#[test]
fn shuffle_yields_a_permutation() {
    let n: i64 = 25;
    let values: Vec<i64> = (0..n).collect();
    let loader = DataLoader::builder(int_dataset(&values))
        .shuffle()
        .build()
        .unwrap();
    let mut seen: Vec<i64> = Vec::new();
    let mut iter = loader.iter();
    while let Some(batch) = iter.next() {
        match batch.unwrap() {
            Collated::Stacked(xs) => {
                assert_eq!(xs.len(), 1);
                seen.push(xs[0]);
            }
            _ => panic!("expected stacked scalars"),
        }
    }
    seen.sort();
    assert_eq!(seen, values);
}

#[test]
fn len_agrees_with_consumption() {
    for (n, b, drop_last) in [
        (0usize, 1usize, false),
        (0, 3, true),
        (1, 3, false),
        (1, 3, true),
        (10, 2, false),
        (10, 3, false),
        (10, 3, true),
        (3, 10, false),
        (3, 10, true),
    ] {
        let values: Vec<i64> = (0..n as i64).collect();
        let mut builder = DataLoader::builder(int_dataset(&values)).batch_size(b);
        if drop_last {
            builder = builder.drop_last();
        }
        let loader = builder.build().unwrap();
        let announced = loader.len();
        let mut iter = loader.iter();
        assert_eq!(iter.len(), announced);
        let mut consumed = 0;
        while let Some(batch) = iter.next() {
            batch.unwrap();
            consumed += 1;
        }
        assert_eq!(consumed, announced, "n={n} b={b} drop_last={drop_last}");
        assert_eq!(iter.len(), 0);
        assert!(iter.next().is_none());
    }
}

#[test]
fn sequential_iterators_agree() {
    let values: Vec<i64> = (0..11).collect();
    let loader = DataLoader::builder(int_dataset(&values))
        .batch_size(4)
        .build()
        .unwrap();
    let mut first: Vec<Option<Result<Collated, CollateError>>> = Vec::new();
    let mut iter = loader.iter();
    loop {
        let step = iter.next();
        let done = step.is_none();
        first.push(step);
        if done {
            break;
        }
    }
    let mut iter = loader.iter();
    for expected in first {
        assert_eq!(iter.next(), expected);
    }
}

#[test]
fn scalar_round_trip() {
    let values: Vec<i64> = vec![9, -4, 0, 7];
    let loader = DataLoader::builder(int_dataset(&values))
        .batch_size(4)
        .build()
        .unwrap();
    let mut iter = loader.iter();
    match iter.next() {
        Some(Ok(Collated::Stacked(xs))) => {
            assert_eq!(xs.len(), values.len());
            for (i, v) in values.iter().enumerate() {
                assert_eq!(xs[i], *v);
            }
        }
        other => panic!("expected one stacked batch, got {other:?}"),
    }
    assert_eq!(iter.next(), None);
}

#[test]
fn drop_last_scenario() {
    let dataset = int_dataset(&[1, 2, 3, 4, 5]);
    let loader = DataLoader::builder(dataset)
        .batch_size(2)
        .drop_last()
        .build()
        .unwrap();
    assert_eq!(loader.len(), 2);
    let mut iter = loader.iter();
    assert_eq!(iter.next(), Some(Ok(Collated::Stacked(vec![1, 2]))));
    assert_eq!(iter.next(), Some(Ok(Collated::Stacked(vec![3, 4]))));
    assert_eq!(iter.next(), None);
}

#[test]
fn zero_batch_size_is_rejected() {
    let dataset = int_dataset(&[1, 2, 3]);
    let result = DataLoader::builder(dataset).batch_size(0).build();
    assert_eq!(result.err(), Some(ConfigurationError::ZeroBatchSize));
}

#[test]
fn explicit_sampler_conflicts_with_shuffle() {
    let dataset = int_dataset(&[1, 2, 3]);
    let result = DataLoader::builder(dataset)
        .sampler(SamplerKind::Random)
        .shuffle()
        .build();
    assert_eq!(
        result.err(),
        Some(ConfigurationError::SamplerShuffleConflict)
    );
}

#[test]
fn mixed_shapes_fail_collation() {
    let dataset = vec![Sample::Int(1), Sample::Text(String::from("a"))];
    let loader = DataLoader::builder(dataset).batch_size(2).build().unwrap();
    let mut iter = loader.iter();
    assert_eq!(iter.next(), Some(Err(CollateError::ShapeMismatch)));
    assert_eq!(iter.next(), None);
}

#[test]
fn ragged_lists_fail_collation() {
    let dataset = vec![
        Sample::List(vec![Sample::Int(1), Sample::Int(2)]),
        Sample::List(vec![Sample::Int(3)]),
    ];
    let loader = DataLoader::builder(dataset).batch_size(2).build().unwrap();
    let mut iter = loader.iter();
    assert_eq!(iter.next(), Some(Err(CollateError::ShapeMismatch)));
}

#[test]
fn stream_batcher_batches_and_flushes() {
    let mut batcher = StreamBatcher::new(2, false, DefaultCollate).unwrap();
    assert_eq!(batcher.push(Sample::Int(1)), None);
    assert_eq!(
        batcher.push(Sample::Int(2)),
        Some(Ok(Collated::Stacked(vec![1, 2])))
    );
    assert_eq!(batcher.push(Sample::Int(3)), None);
    assert_eq!(
        batcher.push(Sample::Int(4)),
        Some(Ok(Collated::Stacked(vec![3, 4])))
    );
    assert_eq!(batcher.push(Sample::Int(5)), None);
    assert_eq!(batcher.finish(), Some(Ok(Collated::Stacked(vec![5]))));
    assert_eq!(batcher.finish(), None);
}

#[test]
fn stream_batcher_drops_short_tail() {
    let mut batcher = StreamBatcher::new(2, true, DefaultCollate).unwrap();
    assert_eq!(batcher.push(Sample::Int(1)), None);
    assert_eq!(
        batcher.push(Sample::Int(2)),
        Some(Ok(Collated::Stacked(vec![1, 2])))
    );
    assert_eq!(batcher.push(Sample::Int(3)), None);
    assert_eq!(batcher.finish(), None);
}

#[test]
fn stream_batcher_rejects_zero_batch_size() {
    assert!(matches!(
        StreamBatcher::new(0, false, DefaultCollate),
        Err(ConfigurationError::ZeroBatchSize)
    ));
}

#[test]
fn shuffle_buffer_conserves_the_stream() {
    let mut window = ShuffleBuffer::new(3);
    let mut out: Vec<i64> = Vec::new();
    for x in 0..10i64 {
        if let Some(Sample::Int(y)) = window.push(Sample::Int(x)) {
            out.push(y);
        }
    }
    assert_eq!(out.len(), 7);
    while let Some(s) = window.next_remaining() {
        match s {
            Sample::Int(y) => out.push(y),
            _ => panic!("expected a scalar"),
        }
    }
    out.sort();
    let expected: Vec<i64> = (0..10).collect();
    assert_eq!(out, expected);
}

#[test]
fn shuffle_buffer_without_lookahead_passes_through() {
    let mut window = ShuffleBuffer::new(0);
    assert_eq!(window.push(Sample::Int(5)), Some(Sample::Int(5)));
    assert_eq!(window.next_remaining(), None);
}
