use stl::{facet_marker, numeric_token, parse_vertex, process_stl, split_tokens, ParseError};

#[test]
fn test_facet_marker_recognition() {
    assert!(facet_marker("facet normal 0 0 0"));
    assert!(facet_marker("  facet normal 1 2 3  "));
    assert!(facet_marker("\tfacet"));
    assert!(facet_marker("facets"));
    assert!(!facet_marker("endfacet"));
    assert!(!facet_marker("outer loop"));
    assert!(!facet_marker("vertex 0 0 0"));
    assert!(!facet_marker("face"));
    assert!(!facet_marker("   "));
    assert!(!facet_marker(""));
}

#[test]
fn test_split_tokens_words() {
    let toks = split_tokens("vertex 1 2 3");
    assert_eq!(toks, vec!["vertex", "1", "2", "3"]);
}

#[test]
fn test_split_tokens_extra_whitespace() {
    let toks = split_tokens("  vertex\t1.5  -2 \t 3e4  ");
    assert_eq!(toks, vec!["vertex", "1.5", "-2", "3e4"]);
    assert_eq!(split_tokens("   "), Vec::<String>::new());
    assert_eq!(split_tokens(""), Vec::<String>::new());
}

#[test]
fn test_numeric_token_accepts() {
    for tok in ["0", "1", "-1", "+7", "10", "0.25", "-0.5", "1.", ".5", "1e9", "2.5E-3", "-3.25e+10", "007"] {
        assert!(numeric_token(tok), "{}", tok);
    }
}

#[test]
fn test_numeric_token_rejects() {
    for tok in ["", ".", "+", "-", "e5", "1e", "1e+", "1.2.3", "--1", "1..2", "abc", "1a", " 1", "1 ", "+.e2", "nan", "inf"] {
        assert!(!numeric_token(tok), "{}", tok);
    }
}

#[test]
fn test_parse_vertex_reads_tokens() {
    let v = parse_vertex("   vertex 0.5 -1 2e3   ").unwrap();
    assert_eq!(v.0, "0.5");
    assert_eq!(v.1, "-1");
    assert_eq!(v.2, "2e3");
}

#[test]
fn test_parse_vertex_ignores_extra_tokens() {
    let v = parse_vertex("vertex 1 2 3 4 5").unwrap();
    assert_eq!(v.0, "1");
    assert_eq!(v.1, "2");
    assert_eq!(v.2, "3");
}

#[test]
fn test_parse_vertex_rejects_short_or_bad_lines() {
    assert!(parse_vertex("vertex 1 2").is_none());
    assert!(parse_vertex("vertex").is_none());
    assert!(parse_vertex("").is_none());
    assert!(parse_vertex("vertex 1 2 x").is_none());
    assert!(parse_vertex("vertex 1 2 1.2.3").is_none());
}

fn lines_of(text: &str) -> Vec<String> {
    text.lines().map(|l| l.to_string()).collect()
}

// A solid/endsolid pair with no facet blocks yields zero triangles.
#[test]
fn test_zero_facets() {
    let lines = lines_of("solid empty\nendsolid empty");
    let stats = process_stl(&lines).unwrap();
    assert_eq!(stats.triangles, 0);
    assert_eq!(stats.facets.len(), 0);
}

#[test]
fn test_empty_input() {
    let stats = process_stl(&Vec::new()).unwrap();
    assert_eq!(stats.triangles, 0);
}

// A facet marker followed by fewer than three vertex lines is a failure,
// not a silently shortened mesh.
#[test]
fn test_truncated_facet_fails() {
    let lines = lines_of("solid s\n  facet normal 0 0 0\n    outer loop\n      vertex 0 0 0\n      vertex 1 0 0");
    assert_eq!(process_stl(&lines).unwrap_err(), ParseError::TruncatedFacet);
}

#[test]
fn test_marker_at_end_fails() {
    let lines = lines_of("solid s\nfacet normal 0 0 0");
    assert_eq!(process_stl(&lines).unwrap_err(), ParseError::TruncatedFacet);
}

#[test]
fn test_bad_coordinate_fails() {
    let lines = lines_of(
        "solid s\n  facet normal 0 0 0\n    outer loop\n      vertex 0 0 zero\n      vertex 1 0 0\n      vertex 1 1 1\n    endloop\n  endfacet\nendsolid s",
    );
    assert_eq!(process_stl(&lines).unwrap_err(), ParseError::MalformedVertex);
}

#[test]
fn test_missing_coordinate_fails() {
    let lines = lines_of(
        "solid s\n  facet normal 0 0 0\n    outer loop\n      vertex 0 0\n      vertex 1 0 0\n      vertex 1 1 1\n    endloop\n  endfacet\nendsolid s",
    );
    assert_eq!(process_stl(&lines).unwrap_err(), ParseError::MalformedVertex);
}
