use stock_renderer::geometry::{map_ticks, map_to_geometry, series_bounds, Ratio, VertexBuffer};

fn xs(buffer: &VertexBuffer) -> Vec<Ratio> {
    buffer.coordinates().iter().step_by(2).copied().collect()
}

fn ys(buffer: &VertexBuffer) -> Vec<Ratio> {
    buffer.coordinates().iter().skip(1).step_by(2).copied().collect()
}

fn value(r: &Ratio) -> f64 {
    r.num as f64 / r.den as f64
}

fn bits(prices: &[f32]) -> Vec<u32> {
    prices.iter().map(|p| p.to_bits()).collect()
}

#[test]
fn four_prices_map_to_the_expected_polyline() {
    let buffer = map_to_geometry(&bits(&[10.0, 20.0, 15.0, 30.0]), 800, 400);
    assert_eq!(buffer.len(), 8);
    assert_eq!(buffer.vertex_count(), 4);
    let x: Vec<f64> = xs(&buffer).iter().map(value).collect();
    let y: Vec<f64> = ys(&buffer).iter().map(value).collect();
    assert_eq!(x, vec![-1.0, -1.0 / 3.0, 1.0 / 3.0, 1.0]);
    assert_eq!(y, vec![-1.0, 0.0, -0.5, 1.0]);
    let as_floats: Vec<f32> = buffer.coordinates().iter().map(|c| value(c) as f32).collect();
    assert_eq!(as_floats, vec![-1.0, -1.0, -1.0 / 3.0, 0.0, 1.0 / 3.0, -0.5, 1.0, 1.0]);
}

#[test]
fn four_prices_are_uploaded_as_the_nearest_numbers() {
    let buffer = map_to_geometry(&bits(&[10.0, 20.0, 15.0, 30.0]), 800, 400);
    let uploaded: Vec<f32> = buffer.float_bits().into_iter().map(f32::from_bits).collect();
    assert_eq!(uploaded, vec![-1.0, -1.0, -1.0 / 3.0, 0.0, 1.0 / 3.0, -0.5, 1.0, 1.0]);
}

#[test]
fn the_extremes_are_uploaded_as_the_edges() {
    for prices in [vec![0.1f32, 0.2, 0.3], vec![-5.0, 1.0e-30, 7.5, -5.0], vec![3.0e38, -3.0e38]] {
        let low = prices.iter().cloned().fold(f32::INFINITY, f32::min);
        let high = prices.iter().cloned().fold(f32::NEG_INFINITY, f32::max);
        let uploaded = map_to_geometry(&bits(&prices), 64, 64).float_bits();
        assert_eq!(uploaded.len(), 2 * prices.len());
        for (i, p) in prices.iter().enumerate() {
            let y = f32::from_bits(uploaded[2 * i + 1]);
            if *p == low {
                assert_eq!(y, -1.0);
            } else if *p == high {
                assert_eq!(y, 1.0);
            } else {
                assert!(-1.0 < y && y < 1.0);
            }
        }
        assert_eq!(f32::from_bits(uploaded[0]), -1.0);
        assert_eq!(f32::from_bits(uploaded[uploaded.len() - 2]), 1.0);
    }
}

#[test]
fn a_flat_series_is_uploaded_on_the_center_line() {
    let uploaded = map_to_geometry(&bits(&[2.5, 2.5, 2.5]), 64, 64).float_bits();
    assert_eq!(uploaded, bits(&[-1.0, 0.0, 0.0, 0.0, 1.0, 0.0]));
    let single = map_to_geometry(&bits(&[99.0]), 64, 64).float_bits();
    assert_eq!(single, bits(&[0.0, 0.0]));
}

#[test]
fn no_prices_map_to_no_vertices() {
    for (width, height) in [(800, 400), (0, 0), (u32::MAX, 1)] {
        let buffer = map_to_geometry(&Vec::new(), width, height);
        assert!(buffer.is_empty());
        assert_eq!(buffer.vertex_count(), 0);
        assert!(buffer.float_bits().is_empty());
    }
}

#[test]
fn equal_prices_lie_on_the_center_line() {
    for price in [0.0f32, -0.0, 1.0, -2.5, 101.25, 1.0e-40, f32::MAX, f32::MIN_POSITIVE] {
        let buffer = map_to_geometry(&bits(&[price, price, price]), 320, 200);
        for y in ys(&buffer) {
            assert_ne!(y.den, 0);
            assert_eq!(y.num, 0);
        }
    }
    let zeros = map_to_geometry(&bits(&[0.0, -0.0]), 320, 200);
    assert_eq!(ys(&zeros), vec![Ratio { num: 0, den: 2 }, Ratio { num: 0, den: 2 }]);
}

#[test]
fn the_smallest_and_the_largest_price_touch_the_edges() {
    let series: Vec<Vec<f32>> = vec![
        vec![10.0, 20.0, 15.0, 30.0],
        vec![-1.5, 2.25, -1.5, 0.0, 2.25],
        vec![1.000_000_1, 1.0, 1.000_000_2],
        vec![1.0e-45, 0.0, 3.0e-45],
        vec![1.0e-30, 1.0e30, -1.0e-30],
        vec![3.0e38, -3.0e38, 1.0],
        vec![0.1, 0.2, 0.3],
    ];
    for prices in series {
        let low = prices.iter().cloned().fold(f32::INFINITY, f32::min);
        let high = prices.iter().cloned().fold(f32::NEG_INFINITY, f32::max);
        assert!(low < high);
        let y = ys(&map_to_geometry(&bits(&prices), 640, 480));
        for (i, p) in prices.iter().enumerate() {
            assert!(y[i].den > 0);
            if *p == low {
                assert_eq!(y[i].num, -y[i].den, "{:?}", prices);
            }
            if *p == high {
                assert_eq!(y[i].num, y[i].den, "{:?}", prices);
            }
            assert!(-y[i].den <= y[i].num && y[i].num <= y[i].den);
        }
    }
}

#[test]
fn a_price_far_below_the_others_is_drawn_where_its_whole_ticks_are() {
    // One tick is 2^-62 here, so 1e-30 has no whole tick and is drawn at zero.
    let buffer = map_to_geometry(&bits(&[0.0, 1.0e-30, 1.0, -1.0e-30]), 10, 10);
    let y = ys(&buffer);
    assert_eq!(y[1], y[0]);
    assert_eq!(y[3], y[0]);
    assert_eq!(y[0].num, -y[0].den);
    assert_eq!(y[2].num, y[2].den);
    // The exact coordinate of 1e-30 lies 2e-30 above the edge: far less than 2^-58.
    assert!(2.0e-30 < 2.0f64.powi(-58));
}

#[test]
fn prices_are_interpolated_linearly() {
    let buffer = map_to_geometry(&bits(&[0.0, 0.25, 0.5, 0.75, 1.0]), 10, 10);
    let y: Vec<f64> = ys(&buffer).iter().map(value).collect();
    assert_eq!(y, vec![-1.0, -0.5, 0.0, 0.5, 1.0]);
    let buffer = map_to_geometry(&bits(&[-8.0, 8.0, 0.0, 4.0]), 10, 10);
    let y: Vec<f64> = ys(&buffer).iter().map(value).collect();
    assert_eq!(y, vec![-1.0, 1.0, 0.0, 0.5]);
}

#[test]
fn prices_that_are_no_numbers_are_drawn_at_zero_and_at_the_ends() {
    let drawn = map_to_geometry(&bits(&[f32::NAN, f32::INFINITY, f32::NEG_INFINITY, 1.0]), 1, 1);
    let clamped = map_to_geometry(&bits(&[0.0, f32::MAX, f32::MIN, 1.0]), 1, 1);
    assert_eq!(drawn, clamped);
    let y: Vec<f64> = ys(&drawn).iter().map(value).collect();
    assert_eq!(y[0], 0.0);
    assert_eq!(y[1], 1.0);
    assert_eq!(y[2], -1.0);
}

#[test]
fn the_size_of_the_surface_does_not_change_the_geometry() {
    let prices = bits(&[1.0, 5.5, 2.0, 8.25]);
    assert_eq!(map_to_geometry(&prices, 800, 400), map_to_geometry(&prices, 1, 9999));
    assert_eq!(map_to_geometry(&prices, 0, 0), map_to_geometry(&prices, u32::MAX, u32::MAX));
}

#[test]
fn four_samples_map_to_the_expected_polyline() {
    let buffer = map_ticks(&vec![10, 20, 15, 30]);
    assert_eq!(buffer.len(), 8);
    assert_eq!(buffer.vertex_count(), 4);
    let x: Vec<f64> = xs(&buffer).iter().map(value).collect();
    let y: Vec<f64> = ys(&buffer).iter().map(value).collect();
    assert_eq!(x, vec![-1.0, -1.0 / 3.0, 1.0 / 3.0, 1.0]);
    assert_eq!(y, vec![-1.0, 0.0, -0.5, 1.0]);
}

#[test]
fn four_samples_map_to_exact_fractions() {
    let buffer = map_ticks(&vec![10, 20, 15, 30]);
    assert_eq!(
        buffer.coordinates(),
        &vec![
            Ratio { num: -3, den: 3 },
            Ratio { num: -40, den: 40 },
            Ratio { num: -1, den: 3 },
            Ratio { num: 0, den: 40 },
            Ratio { num: 1, den: 3 },
            Ratio { num: -20, den: 40 },
            Ratio { num: 3, den: 3 },
            Ratio { num: 40, den: 40 },
        ]
    );
}

#[test]
fn empty_series_maps_to_no_vertices() {
    let buffer = map_ticks(&Vec::new());
    assert!(buffer.is_empty());
    assert_eq!(buffer.len(), 0);
    assert_eq!(buffer.vertex_count(), 0);
    assert!(buffer.coordinates().is_empty());
}

#[test]
fn single_sample_sits_in_the_center() {
    let buffer = map_ticks(&vec![42]);
    assert_eq!(buffer.coordinates(), &vec![Ratio { num: 0, den: 1 }, Ratio { num: 0, den: 2 }]);
}

#[test]
fn flat_series_lies_on_the_center_line() {
    let buffer = map_ticks(&vec![7, 7, 7, 7, 7]);
    assert_eq!(buffer.vertex_count(), 5);
    for y in ys(&buffer) {
        assert_ne!(y.den, 0);
        assert_eq!(y.num, 0);
        assert_eq!(value(&y), 0.0);
    }
    let x: Vec<f64> = xs(&buffer).iter().map(value).collect();
    assert_eq!(x, vec![-1.0, -0.5, 0.0, 0.5, 1.0]);
}

#[test]
fn every_minimum_and_maximum_touches_an_edge() {
    let prices = vec![5, -3, 9, -3, 0, 9, 4];
    let buffer = map_ticks(&prices);
    let y = ys(&buffer);
    for (i, p) in prices.iter().enumerate() {
        assert!(y[i].den > 0);
        if *p == -3 {
            assert_eq!(y[i].num, -y[i].den);
        } else if *p == 9 {
            assert_eq!(y[i].num, y[i].den);
        } else {
            assert!(-y[i].den < y[i].num && y[i].num < y[i].den);
        }
    }
}

#[test]
fn interpolation_is_linear_between_the_bounds() {
    let buffer = map_ticks(&vec![0, 25, 50, 75, 100]);
    let y: Vec<f64> = ys(&buffer).iter().map(value).collect();
    assert_eq!(y, vec![-1.0, -0.5, 0.0, 0.5, 1.0]);
}

#[test]
fn two_samples_span_the_whole_width() {
    let buffer = map_ticks(&vec![3, 1]);
    assert_eq!(
        buffer.coordinates(),
        &vec![
            Ratio { num: -1, den: 1 },
            Ratio { num: 4, den: 4 },
            Ratio { num: 1, den: 1 },
            Ratio { num: -4, den: 4 },
        ]
    );
}

#[test]
fn the_widest_series_does_not_overflow() {
    let buffer = map_ticks(&vec![i64::MIN, 0, i64::MAX]);
    let y = ys(&buffer);
    let span = 2 * (i64::MAX as i128 - i64::MIN as i128);
    assert_eq!(y[0], Ratio { num: -span, den: span });
    assert_eq!(y[1], Ratio { num: 2, den: span });
    assert_eq!(y[2], Ratio { num: span, den: span });
    let uploaded: Vec<f32> = buffer.float_bits().into_iter().map(f32::from_bits).collect();
    assert_eq!(uploaded, vec![-1.0, -1.0, 0.0, 2.0f32.powi(-64), 1.0, 1.0]);
}

#[test]
fn bounds_of_a_series() {
    assert_eq!(series_bounds(&Vec::new()), None);
    assert_eq!(series_bounds(&vec![4]), Some((4, 4)));
    assert_eq!(series_bounds(&vec![10, 20, 15, 30]), Some((10, 30)));
    assert_eq!(series_bounds(&vec![-1, -7, 3, 3, -7]), Some((-7, 3)));
    assert_eq!(series_bounds(&vec![i64::MAX, i64::MIN]), Some((i64::MIN, i64::MAX)));
}
