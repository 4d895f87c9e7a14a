//! Tests for the error type: construction, equality, the chain formatter and
//! the tree-shaped pretty printer.

use zutil::app_error::{fmt_err, fmt_err_wrapper, fmt_err_wrapper_owned, AppError, Context};
use zutil::app_error::dec_string;
use zutil::multiple::{AllErrs, AllErrsResidue};

fn chain() -> AppError {
    AppError::msg("root".to_owned())
        .context("mid".to_owned())
        .context("top".to_owned())
}

#[test]
fn equality_is_structural() {
    let a = chain();
    let b = chain();
    assert_eq!(a, b);
    let c = AppError::msg("root".to_owned()).context("other".to_owned());
    assert!(a != c);
    assert!(AppError::from_multiple(vec![a.clone()]) != a);
}

#[test]
fn clone_preserves_value() {
    let a = chain();
    let b = a.clone();
    assert_eq!(a, b);
    let m = AppError::from_multiple(vec![chain(), AppError::msg("x".to_owned())]);
    assert_eq!(m.clone(), m);
}

#[test]
fn display_of_single_and_multiple() {
    assert_eq!(chain().display_string(), "top");
    let m = AppError::from_multiple(vec![chain(), AppError::msg("x".to_owned())]);
    assert_eq!(m.display_string(), "Multiple errors (2)");
}

#[test]
fn source_walks_the_chain() {
    let a = chain();
    let mid = a.source().expect("top has a source");
    assert_eq!(mid.display_string(), "mid");
    let root = mid.source().expect("mid has a source");
    assert_eq!(root.display_string(), "root");
    assert!(root.source().is_none());
}

#[test]
fn fmt_err_numbers_the_chain() {
    assert_eq!(fmt_err(&chain()), "top\n  1: mid\n  2: root");
    assert_eq!(fmt_err(&AppError::msg("only".to_owned())), "only");
}

#[test]
fn fmt_err_on_multiple_uses_first_error() {
    let m = AppError::from_multiple(vec![chain(), AppError::msg("x".to_owned())]);
    assert_eq!(fmt_err(&m), "Multiple errors (2)\n  1: top\n  2: mid\n  3: root");
}

#[test]
fn fmt_err_wrappers_render_the_same_text() {
    let a = chain();
    assert_eq!(fmt_err_wrapper(&a).as_str(), "top\n  1: mid\n  2: root");
    assert_eq!(fmt_err_wrapper_owned(a).as_str(), "top\n  1: mid\n  2: root");
}

#[test]
fn context_on_result_and_option() {
    let ok: Result<u64, AppError> = Ok(5);
    assert_eq!(ok.context("c".to_owned()), Ok(5));
    let err: Result<u64, AppError> = Err(AppError::msg("e".to_owned()));
    let wrapped = err.context("c".to_owned()).unwrap_err();
    assert_eq!(wrapped, AppError::msg("e".to_owned()).context("c".to_owned()));
    let none: Option<u64> = None;
    assert_eq!(none.context("missing".to_owned()), Err(AppError::msg("missing".to_owned())));
    assert_eq!(Some(3u64).context("missing".to_owned()), Ok(3));
}

#[test]
fn pretty_renders_a_chain() {
    let rendered = chain().pretty().render();
    assert_eq!(rendered, "top\n└─mid\n  └─root");
}

#[test]
fn pretty_renders_a_bundle() {
    let m = AppError::from_multiple(vec![
        AppError::msg("a".to_owned()).context("ctx".to_owned()),
        AppError::msg("b".to_owned()),
    ]);
    let rendered = m.pretty().render();
    assert_eq!(rendered, "Multiple errors:\n├─ctx\n│ └─a\n└─b");
}

#[test]
fn pretty_renders_nested_bundles() {
    let inner = AppError::from_multiple(vec![
        AppError::msg("x".to_owned()),
        AppError::msg("y".to_owned()),
    ]);
    let m = AppError::from_multiple(vec![inner, AppError::msg("z".to_owned())]);
    let rendered = m.pretty().render();
    assert_eq!(
        rendered,
        "Multiple errors:\n├─Multiple errors:\n│ ├─x\n│ └─y\n└─z"
    );
}

#[test]
fn pretty_filter_that_never_fires_changes_nothing() {
    let m = AppError::from_multiple(vec![chain(), AppError::msg("b".to_owned())]);
    let plain = m.pretty().render();
    let filtered = m.pretty().with_ignore_err(|_e: &AppError| false).render();
    assert_eq!(plain, filtered);
}

#[test]
fn pretty_filter_drops_and_counts_ignored_entries() {
    let m = AppError::from_multiple(vec![
        AppError::msg("keep".to_owned()),
        AppError::msg("drop".to_owned()),
    ]);
    let filtered = m
        .pretty()
        .with_ignore_err(|e: &AppError| e.display_string() == "drop")
        .render();
    assert_eq!(filtered, "Multiple errors:\n├─keep\n└─(1 ignored errors)");
}

#[test]
fn pretty_filter_ignores_an_entry_by_its_cause() {
    // A single error is ignored when the filter fires on any cause below it.
    let m = AppError::from_multiple(vec![
        AppError::msg("bad".to_owned()).context("wrapped".to_owned()),
        AppError::msg("fine".to_owned()),
    ]);
    let filtered = m
        .pretty()
        .with_ignore_err(|e: &AppError| e.display_string() == "bad")
        .render();
    assert_eq!(filtered, "Multiple errors:\n├─fine\n└─(1 ignored errors)");
}

#[test]
fn all_errs_collects_values_when_nothing_fails() {
    let results: Vec<Result<u32, AppError>> = vec![Ok(1), Ok(2), Ok(3)];
    match AllErrs::from_results(results) {
        AllErrs::Values(vs) => assert_eq!(vs, vec![1, 2, 3]),
        AllErrs::Errs(_) => panic!("expected the successes"),
    }
}

#[test]
fn all_errs_collects_every_error() {
    let e1 = AppError::msg("one".to_owned());
    let e2 = AppError::msg("two".to_owned());
    let results: Vec<Result<u32, AppError>> = vec![Ok(1), Err(e1.clone()), Ok(2), Err(e2.clone())];
    match AllErrs::from_results(results) {
        AllErrs::Values(_) => panic!("expected the errors"),
        AllErrs::Errs(es) => assert_eq!(es, vec![e1, e2]),
    }
}

#[test]
fn all_errs_residue_becomes_one_error() {
    let e1 = AppError::msg("one".to_owned());
    let lone: Vec<Result<u32, AppError>> = vec![Err(e1.clone())];
    let residue = AllErrs::from_results(lone).branch().err().expect("one error fails the collection");
    assert_eq!(residue.into_app_error(), e1.clone());
    let e2 = AppError::msg("two".to_owned());
    let both: Vec<Result<u32, AppError>> = vec![Err(e1.clone()), Err(e2.clone())];
    let residue2 = AllErrs::from_results(both).branch().err().expect("errors fail the collection");
    assert_eq!(residue2.into_app_error(), AppError::from_multiple(vec![e1, e2]));
}

#[test]
fn all_errs_try_protocol_round_trip() {
    let wrapped: AllErrs<Vec<u32>> = AllErrs::from_output(vec![7]);
    let vs = wrapped.branch().ok().expect("successes branch as such");
    assert_eq!(vs, vec![7]);
    let err_side: AllErrs<Vec<u32>> =
        AllErrs::from_results(vec![Err(AppError::msg("x".to_owned()))]);
    let residue: AllErrsResidue = err_side.branch().err().expect("errors branch as residue");
    let rewrapped: AllErrs<Vec<u32>> = AllErrs::from_residual(residue);
    assert!(matches!(rewrapped, AllErrs::Errs(_)));
}

#[test]
fn with_context_is_lazy_and_wraps() {
    let err: Result<u64, AppError> = Err(AppError::msg("e".to_owned()));
    let wrapped = err.with_context(|| "lazy".to_owned()).unwrap_err();
    assert_eq!(wrapped, AppError::msg("e".to_owned()).context("lazy".to_owned()));
    let ok: Result<u64, AppError> = Ok(1);
    assert_eq!(ok.with_context(|| panic!("must not be called")), Ok(1));
    let none: Option<u64> = None;
    assert_eq!(none.with_context(|| "gone".to_owned()), Err(AppError::msg("gone".to_owned())));
}

#[test]
fn decimal_rendering() {
    assert_eq!(dec_string(0), "0");
    assert_eq!(dec_string(7), "7");
    assert_eq!(dec_string(10), "10");
    assert_eq!(dec_string(90210), "90210");
    assert_eq!(dec_string(u64::MAX), "18446744073709551615");
}
