use cubic_spline::common::{Knot, SplineError, SplineSegment};
use cubic_spline::evaluate::{locate_segments, validate_spline};
use cubic_spline::interpolate::{assemble_spline, build_system_layout, prepare_knots};

fn knots_of(points: &[(f64, f64)]) -> Vec<Knot> {
    points.iter().map(|&(x, y)| Knot { x: x.to_bits(), y: y.to_bits() }).collect()
}

/// Builds and solves the 4(n-1) x 4(n-1) constraint system for the
/// prepared knots, then unpacks the coefficients through the library.
fn fit_spline(points: &[(f64, f64)]) -> Result<Vec<SplineSegment>, SplineError> {
    let sorted = prepare_knots(knots_of(points))?;
    let n = sorted.len();
    let nseg = n - 1;
    let nrows = nseg * 4;

    let mut a = nalgebra::DMatrix::<f64>::zeros(nrows, nrows);
    let mut b = nalgebra::DMatrix::<f64>::zeros(nrows, 1);

    let (terms, rhs) = build_system_layout(n);
    for t in &terms {
        let x = f64::from_bits(sorted[t.knot].x);
        a[(t.row, t.col)] = (t.scale as f64) * x.powi(t.power as i32);
    }
    for rt in &rhs {
        b[(rt.row, 0)] = f64::from_bits(sorted[rt.knot].y);
    }

    let a_inv = match a.try_inverse() {
        Some(inv) => inv,
        None => return Err(SplineError::SingularSystem),
    };
    let sol = a_inv * b;
    let solution: Vec<u64> = (0..nrows).map(|k| sol[(k, 0)].to_bits()).collect();

    Ok(assemble_spline(&sorted, &solution))
}

fn eval_poly(seg: &SplineSegment, x: f64) -> f64 {
    let a = f64::from_bits(seg.a);
    let b = f64::from_bits(seg.b);
    let c = f64::from_bits(seg.c);
    let d = f64::from_bits(seg.d);
    a * x.powi(3) + b * x.powi(2) + c * x + d
}

fn first_derivative(seg: &SplineSegment, x: f64) -> f64 {
    let a = f64::from_bits(seg.a);
    let b = f64::from_bits(seg.b);
    let c = f64::from_bits(seg.c);
    3.0 * a * x.powi(2) + 2.0 * b * x + c
}

fn second_derivative(seg: &SplineSegment, x: f64) -> f64 {
    let a = f64::from_bits(seg.a);
    let b = f64::from_bits(seg.b);
    6.0 * a * x + 2.0 * b
}

fn sample() -> [(f64, f64); 4] {
    [(0.0, 10.0), (0.5, 8.0), (0.8, 5.0), (1.0, 6.0)]
}

#[test]
fn test_fit_segment_count_and_adjacency() {
    let spline = fit_spline(&sample()).unwrap();
    assert_eq!(spline.len(), sample().len() - 1);
    for i in 0..spline.len() {
        assert!(f64::from_bits(spline[i].knot0) < f64::from_bits(spline[i].knot1));
    }
    for i in 0..spline.len() - 1 {
        assert_eq!(spline[i].knot1, spline[i + 1].knot0);
    }
    assert!(validate_spline(&spline));
}

#[test]
fn test_fit_interpolation_exactness() {
    let spline = fit_spline(&sample()).unwrap();
    for &(x, y) in sample().iter() {
        let i = cubic_spline::evaluate::find_spline_segment(&spline, x.to_bits()).unwrap();
        assert!((eval_poly(&spline[i], x) - y).abs() < 1e-8);
    }
}

#[test]
fn test_fit_continuity_at_interior_knots() {
    let spline = fit_spline(&sample()).unwrap();
    for i in 1..spline.len() {
        let x = f64::from_bits(spline[i].knot0);
        assert!((eval_poly(&spline[i - 1], x) - eval_poly(&spline[i], x)).abs() < 1e-8);
        assert!((first_derivative(&spline[i - 1], x) - first_derivative(&spline[i], x)).abs() < 1e-8);
        assert!((second_derivative(&spline[i - 1], x) - second_derivative(&spline[i], x)).abs() < 1e-8);
    }
}

#[test]
fn test_fit_natural_boundary() {
    let spline = fit_spline(&sample()).unwrap();
    let x_first = f64::from_bits(spline[0].knot0);
    let x_last = f64::from_bits(spline[spline.len() - 1].knot1);
    assert!(second_derivative(&spline[0], x_first).abs() < 1e-8);
    assert!(second_derivative(&spline[spline.len() - 1], x_last).abs() < 1e-8);
}

#[test]
fn test_fit_concrete_scenario() {
    let spline = fit_spline(&sample()).unwrap();
    assert_eq!(spline.len(), 3);

    // Direct polynomial computation from the stored coefficients must agree
    // exactly with the full locate-and-evaluate path.
    let x = 0.6f64;
    let i = cubic_spline::evaluate::find_spline_segment(&spline, x.to_bits()).unwrap();
    let direct = eval_poly(&spline[1], x);
    assert_eq!(direct, eval_poly(&spline[i], x));
    assert!((direct - 6.776158940397357).abs() < 1e-8);
}

#[test]
fn test_fit_unsorted_input_is_sorted() {
    let shuffled = [(0.8, 5.0), (0.0, 10.0), (1.0, 6.0), (0.5, 8.0)];
    let spline = fit_spline(&shuffled).unwrap();
    let reference = fit_spline(&sample()).unwrap();
    assert_eq!(spline, reference);
}

#[test]
fn test_fit_two_knots() {
    let spline = fit_spline(&[(0.0, 1.0), (2.0, 3.0)]).unwrap();
    assert_eq!(spline.len(), 1);
    assert!((eval_poly(&spline[0], 0.0) - 1.0).abs() < 1e-8);
    assert!((eval_poly(&spline[0], 2.0) - 3.0).abs() < 1e-8);
    assert!(second_derivative(&spline[0], 0.0).abs() < 1e-8);
    assert!(second_derivative(&spline[0], 2.0).abs() < 1e-8);
}

#[test]
fn test_fit_too_few_knots() {
    assert_eq!(fit_spline(&[]), Err(SplineError::InputTooSmall));
    assert_eq!(fit_spline(&[(1.0, 2.0)]), Err(SplineError::InputTooSmall));
}

#[test]
fn test_fit_duplicate_x() {
    let points = [(0.0, 1.0), (0.5, 2.0), (0.5, 3.0), (1.0, 4.0)];
    assert_eq!(fit_spline(&points), Err(SplineError::SingularSystem));
}

#[test]
fn test_fit_non_finite_coordinate() {
    assert_eq!(
        fit_spline(&[(0.0, 1.0), (1.0, f64::NAN)]),
        Err(SplineError::NonFiniteValue)
    );
    assert_eq!(
        fit_spline(&[(0.0, 1.0), (f64::INFINITY, 2.0)]),
        Err(SplineError::NonFiniteValue)
    );
}

#[test]
fn test_round_trip_through_table() {
    // Fit, persist the segment table, reload it, and evaluate: the results
    // must match evaluating the freshly fitted spline.
    let spline = fit_spline(&sample()).unwrap();

    let mut wtr = csv::Writer::from_writer(vec![]);
    wtr.write_record(&["a", "b", "c", "d", "knot0", "knot1"]).unwrap();
    for seg in spline.iter() {
        let row: Vec<String> = [seg.a, seg.b, seg.c, seg.d, seg.knot0, seg.knot1]
            .iter()
            .map(|&bits| format!("{}", f64::from_bits(bits)))
            .collect();
        wtr.write_record(&row).unwrap();
    }
    let bytes = wtr.into_inner().unwrap();

    let mut rdr = csv::Reader::from_reader(&bytes[..]);
    let mut reloaded: Vec<SplineSegment> = Vec::new();
    for record in rdr.records() {
        let record = record.unwrap();
        let field = |k: usize| record[k].parse::<f64>().unwrap().to_bits();
        reloaded.push(SplineSegment {
            a: field(0),
            b: field(1),
            c: field(2),
            d: field(3),
            knot0: field(4),
            knot1: field(5),
        });
    }

    assert!(validate_spline(&reloaded));
    assert_eq!(reloaded, spline);

    let queries: Vec<u64> = [0.0, 0.25, 0.5, 0.6, 0.77, 0.8, 0.93, 1.0]
        .iter()
        .map(|x: &f64| x.to_bits())
        .collect();
    let before = locate_segments(&spline, &queries).unwrap();
    let after = locate_segments(&reloaded, &queries).unwrap();
    for (k, (&i, &j)) in before.iter().zip(after.iter()).enumerate() {
        let x = f64::from_bits(queries[k]);
        assert_eq!(eval_poly(&spline[i], x), eval_poly(&reloaded[j], x));
    }
}
