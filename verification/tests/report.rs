use stl::{process_stl, u32_decimal, StlVector};

#[test]
fn test_u32_decimal_values() {
    assert_eq!(u32_decimal(0), "0");
    assert_eq!(u32_decimal(7), "7");
    assert_eq!(u32_decimal(10), "10");
    assert_eq!(u32_decimal(42), "42");
    assert_eq!(u32_decimal(1000), "1000");
    assert_eq!(u32_decimal(4294967295), "4294967295");
}

#[test]
fn test_report_text() {
    let lines: Vec<String> = "solid s\nendsolid s".lines().map(|l| l.to_string()).collect();
    let stats = process_stl(&lines).unwrap();
    assert_eq!(
        stats.report("0.0000"),
        "Number of Triangles: 0\nSurface Area: 0.0000"
    );
}

#[test]
fn test_report_two_facets() {
    let mesh = "solid simplePart
  facet normal 0 0 0
      outer loop
          vertex 0 0 0
          vertex 1 0 0
          vertex 1 1 1
      endloop
  endfacet
  facet normal 0 0 0
      outer loop
          vertex 0 0 0
          vertex 0 1 1
          vertex 1 1 1
      endloop
  endfacet
endsolid simplePart";
    let lines: Vec<String> = mesh.lines().map(|l| l.to_string()).collect();
    let stats = process_stl(&lines).unwrap();
    let report = stats.report("1.4142");
    assert_eq!(report, "Number of Triangles: 2\nSurface Area: 1.4142");
}

#[test]
fn test_vector_new_and_sum() {
    let v: StlVector<u32> = StlVector::new(1, 2, 3);
    assert_eq!(v.0, 1);
    assert_eq!(v.1, 2);
    assert_eq!(v.2, 3);
    assert_eq!(v.sum(), 6);
}

#[test]
fn test_vector_sum_floats() {
    let v: StlVector<f32> = StlVector::new(0.5, 0.25, 0.25);
    assert_eq!(v.sum(), 1.0);
}
