use stl::{process_stl, StlTriangle, StlVector};

fn simple_input() -> &'static str {
    "solid simplePart
  facet normal 0 0 0
      outer loop
          vertex 0 0 0
          vertex 1 0 0
          vertex 1 1 1
      endloop
  endfacet
  facet normal 0 0 0
      outer loop
          vertex 0 0 0
          vertex 0 1 1
          vertex 1 1 1
      endloop
  endfacet
endsolid simplePart"
}

fn coords(v: &StlVector<String>) -> [f32; 3] {
    [
        v.0.parse().unwrap(),
        v.1.parse().unwrap(),
        v.2.parse().unwrap(),
    ]
}

// Heron's formula over the coordinate tokens, in single precision as the
// report computes it.
fn heron_area(t: &StlTriangle) -> f32 {
    let x = coords(&t.x);
    let y = coords(&t.y);
    let z = coords(&t.z);
    let a = ((x[0] - y[0]).powf(2.0) + (x[1] - y[1]).powf(2.0) + (x[2] - y[2]).powf(2.0)).sqrt();
    let b = ((x[0] - z[0]).powf(2.0) + (x[1] - z[1]).powf(2.0) + (x[2] - z[2]).powf(2.0)).sqrt();
    let c = ((y[0] - z[0]).powf(2.0) + (y[1] - z[1]).powf(2.0) + (y[2] - z[2]).powf(2.0)).sqrt();
    let perimeter = a + b + c;
    let s = perimeter * 0.5;
    (s * (s - a) * (s - b) * (s - c)).sqrt()
}

fn tri(x: [&str; 3], y: [&str; 3], z: [&str; 3]) -> StlTriangle {
    StlTriangle {
        x: StlVector(x[0].to_string(), x[1].to_string(), x[2].to_string()),
        y: StlVector(y[0].to_string(), y[1].to_string(), y[2].to_string()),
        z: StlVector(z[0].to_string(), z[1].to_string(), z[2].to_string()),
    }
}

#[test]
fn test_from() {
    let input = vec![
        "vertex 0 0 0".into(),
        "vertex 1 0 0".into(),
        " vertex 1 1 1".into(),
    ];
    let actual = StlTriangle::from(input);
    let expected = tri(["0", "0", "0"], ["1", "0", "0"], ["1", "1", "1"]);

    assert_eq!(actual, expected);
}

#[test]
fn test_area() {
    let input = tri(["0", "0", "0"], ["1", "0", "0"], ["1", "1", "1"]);
    let expected = 0.7071;

    assert_eq!(f32::round(heron_area(&input) * 10000.0) * 0.0001, expected);
}

#[test]
fn test_stats() {
    let input = simple_input();
    let lines: Vec<String> = input.lines().map(|l| l.to_string()).collect();
    let actual = process_stl(&lines).unwrap();
    let expected_area = 1.4142;
    let expected_triangles = 2;

    let mut area: f32 = 0.0;
    for facet in &actual.facets {
        area += heron_area(facet);
    }
    assert_eq!(f32::round(area * 10000.0) * 0.0001, expected_area);
    assert_eq!(actual.triangles, expected_triangles)
}

#[test]
fn test_stats_facets_match_count() {
    let input = simple_input();
    let lines: Vec<String> = input.lines().map(|l| l.to_string()).collect();
    let actual = process_stl(&lines).unwrap();
    assert_eq!(actual.facets.len(), 2);
    assert_eq!(
        actual.facets[0],
        tri(["0", "0", "0"], ["1", "0", "0"], ["1", "1", "1"])
    );
    assert_eq!(
        actual.facets[1],
        tri(["0", "0", "0"], ["0", "1", "1"], ["1", "1", "1"])
    );
}

// Non-negativity of the area over a spread of well-formed facets: zero or
// positive, with NaN only possible for degenerate vertex triples.
#[test]
fn test_area_non_negative() {
    let samples = vec![
        tri(["0", "0", "0"], ["1", "0", "0"], ["1", "1", "1"]),
        tri(["0", "0", "0"], ["0", "1", "1"], ["1", "1", "1"]),
        tri(["-1", "-2", "-3"], ["4", "5", "6"], ["7", "-8", "9"]),
        tri(["0.5", "0.25", "0"], ["1e2", "2e-3", "3"], ["-2.5", ".5", "1."]),
        tri(["0", "0", "0"], ["0", "0", "0"], ["0", "0", "0"]),
        tri(["1", "1", "1"], ["2", "2", "2"], ["3", "3", "3"]),
    ];
    for t in &samples {
        let area = heron_area(t);
        assert!(area >= 0.0 || area.is_nan());
    }
}

// A mesh holding only a solid/endsolid pair reports zero triangles and a
// zero area.
#[test]
fn test_zero_facets_report() {
    let lines: Vec<String> = "solid empty\nendsolid empty"
        .lines()
        .map(|l| l.to_string())
        .collect();
    let stats = process_stl(&lines).unwrap();
    let mut area: f32 = 0.0;
    for facet in &stats.facets {
        area += heron_area(facet);
    }
    assert_eq!(
        stats.report(&format!("{:.4}", area)),
        "Number of Triangles: 0\nSurface Area: 0.0000"
    );
}

// Reordering the two facet blocks of the simple mesh changes neither the
// count nor the total area.
#[test]
fn test_stats_order_independent() {
    let forward: Vec<String> = simple_input().lines().map(|l| l.to_string()).collect();
    let mut swapped: Vec<String> = Vec::new();
    swapped.push(forward[0].clone());
    for l in &forward[8..15] {
        swapped.push(l.clone());
    }
    for l in &forward[1..8] {
        swapped.push(l.clone());
    }
    swapped.push(forward[15].clone());

    let a = process_stl(&forward).unwrap();
    let b = process_stl(&swapped).unwrap();
    assert_eq!(a.triangles, b.triangles);
    let mut area_a: f32 = 0.0;
    for facet in &a.facets {
        area_a += heron_area(facet);
    }
    let mut area_b: f32 = 0.0;
    for facet in &b.facets {
        area_b += heron_area(facet);
    }
    assert_eq!(
        f32::round(area_a * 10000.0) * 0.0001,
        f32::round(area_b * 10000.0) * 0.0001
    );
}
