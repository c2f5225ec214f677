use rust_typer::errors::PipelineError;
use rust_typer::select::select_file;

#[test]
fn selection_is_always_a_pool_member() {
    let files: Vec<String> = vec!["a".to_string(), "b".to_string(), "c".to_string()];
    for _ in 0..200 {
        let picked = select_file(&files).unwrap();
        assert!(files.iter().any(|f| f == picked));
    }
}

#[test]
fn selection_shows_no_systematic_bias() {
    // Over many draws from a four-element pool every index must come up;
    // a selector stuck on any strict subset would fail this with
    // overwhelming probability.
    let files: Vec<String> = (0..4).map(|i| i.to_string()).collect();
    let mut counts = [0usize; 4];
    for _ in 0..4000 {
        let picked = select_file(&files).unwrap();
        let idx: usize = picked.parse().unwrap();
        counts[idx] += 1;
    }
    for &c in counts.iter() {
        assert!(c > 0, "an index was never drawn: {:?}", counts);
    }
    // A uniform draw puts about 1000 in each bin; 600 is far outside any
    // plausible fluctuation and catches a heavily skewed source.
    for &c in counts.iter() {
        assert!(c > 600, "draws are heavily skewed: {:?}", counts);
    }
}

#[test]
fn empty_pool_is_reported() {
    let files: Vec<String> = Vec::new();
    assert_eq!(select_file(&files).unwrap_err(), PipelineError::EmptyPool);
}

#[test]
fn singleton_pool_is_deterministic() {
    let files = vec!["only.txt".to_string()];
    for _ in 0..10 {
        assert_eq!(select_file(&files).unwrap(), "only.txt");
    }
}
