//! Tree-shaped pretty printing of [`AppError`] values: one line per error,
//! with box-drawing columns showing how causes and bundles nest.

use vstd::prelude::*;

use crate::app_error::{AppError, dec_string};

verus! {

/// One column of the tree drawing: a continuation line or blank space.
#[derive(PartialEq, Eq, Structural, Clone, Copy, Debug)]
pub enum Column {
    /// A vertical line, drawn under a bundle entry that has siblings below.
    Line,
    /// Blank space, drawn under a last entry.
    Empty,
}

/// The text of one column.
pub open spec fn spec_col(c: Column) -> Seq<char> {
    match c {
        Column::Line => "│ "@,
        Column::Empty => "  "@,
    }
}

impl Column {
    /// Returns the string for this column.
    pub fn as_str(self) -> (s: &'static str)
        ensures
            s@ == spec_col(self),
    {
        match self {
            Column::Line => "│ ",
            Column::Empty => "  ",
        }
    }
}

/// The text of a column stack, from the suffix starting at `i`.
pub open spec fn spec_cols_from(cols: Seq<Column>, i: int) -> Seq<char>
    decreases cols.len() - i,
{
    if i < 0 || i >= cols.len() {
        Seq::<char>::empty()
    } else {
        spec_col(cols[i]) + spec_cols_from(cols, i + 1)
    }
}

/// The text of a whole column stack.
pub open spec fn spec_cols(cols: Seq<Column>) -> Seq<char> {
    spec_cols_from(cols, 0)
}

/// The pretty rendering of one error drawn at the current column stack.
pub open spec fn spec_render_node(e: AppError, cols: Seq<Column>) -> Seq<char>
    decreases e, 0int,
{
    match e {
        AppError::Single { msg, source } => msg@ + spec_render_src(source, cols),
        AppError::Multiple(errs) => "Multiple errors:"@ + spec_render_items(errs, 0, cols),
    }
}

/// The pretty rendering of an error's cause, drawn one level deeper.
pub open spec fn spec_render_src(src: Option<Box<AppError>>, cols: Seq<Column>) -> Seq<char>
    decreases src, 0int,
{
    match src {
        None => Seq::<char>::empty(),
        Some(b) => "\n"@ + spec_cols(cols) + "└─"@ + spec_render_node(
            *b,
            cols.push(Column::Empty),
        ),
    }
}

/// The pretty rendering of the entries of a bundle, from index `i` on.
pub open spec fn spec_render_items(errs: Vec<AppError>, i: int, cols: Seq<Column>) -> Seq<char>
    decreases errs, errs.len() - i,
{
    if i < 0 || i >= errs.len() {
        Seq::<char>::empty()
    } else {
        let last = i == errs.len() - 1;
        let branch = if last {
            "└─"@
        } else {
            "├─"@
        };
        let col = if last {
            Column::Empty
        } else {
            Column::Line
        };
        "\n"@ + spec_cols(cols) + branch + spec_render_node(errs[i], cols.push(col))
            + spec_render_items(errs, i + 1, cols)
    }
}

/// The full pretty rendering of an error.
pub open spec fn spec_pretty(e: AppError) -> Seq<char> {
    spec_render_node(e, Seq::<Column>::empty())
}

fn append_cols(cols: &Vec<Column>, i: usize, out: &mut String)
    requires
        i <= cols.len(),
    ensures
        final(out)@ == old(out)@ + spec_cols_from(cols@, i as int),
    decreases cols.len() - i,
{
    if i < cols.len() {
        out.append(cols[i].as_str());
        append_cols(cols, i + 1, out);
        proof {
            assert(out@ =~= old(out)@ + spec_cols_from(cols@, i as int));
        }
    } else {
        proof {
            assert(out@ =~= old(out)@ + spec_cols_from(cols@, i as int));
        }
    }
}

fn render_node(e: &AppError, cols: &mut Vec<Column>, out: &mut String)
    ensures
        final(cols)@ == old(cols)@,
        final(out)@ == old(out)@ + spec_render_node(*e, old(cols)@),
    decreases *e, 0int, 1int,
{
    match e {
        AppError::Single { msg, source } => {
            out.append(msg.as_str());
            render_src(source, cols, out);
            proof {
                assert(out@ =~= old(out)@ + spec_render_node(*e, old(cols)@));
            }
        },
        AppError::Multiple(errs) => {
            proof {
                assert(decreases_to!(*e => e->Multiple_0));
            }
            out.append("Multiple errors:");
            render_items(errs, 0, cols, out);
            proof {
                assert(out@ =~= old(out)@ + spec_render_node(*e, old(cols)@));
            }
        },
    }
}

fn render_src(src: &Option<Box<AppError>>, cols: &mut Vec<Column>, out: &mut String)
    ensures
        final(cols)@ == old(cols)@,
        final(out)@ == old(out)@ + spec_render_src(*src, old(cols)@),
    decreases *src, 0int, 0int,
{
    match src {
        None => {},
        Some(b) => {
            out.append("\n");
            append_cols(cols, 0, out);
            out.append("└─");
            cols.push(Column::Empty);
            render_node(&**b, cols, out);
            cols.pop();
            proof {
                assert(cols@ =~= old(cols)@);
                assert(out@ =~= old(out)@ + spec_render_src(*src, old(cols)@));
            }
        },
    }
}

fn render_items(errs: &Vec<AppError>, i: usize, cols: &mut Vec<Column>, out: &mut String)
    requires
        i <= errs.len(),
    ensures
        final(cols)@ == old(cols)@,
        final(out)@ == old(out)@ + spec_render_items(*errs, i as int, old(cols)@),
    decreases *errs, errs.len() - i, 0int,
{
    if i < errs.len() {
        proof {
            assert(decreases_to!(errs@ => errs@[i as int]));
        }
        out.append("\n");
        append_cols(cols, 0, out);
        let last: bool = i == errs.len() - 1;
        if last {
            out.append("└─");
            cols.push(Column::Empty);
        } else {
            out.append("├─");
            cols.push(Column::Line);
        }
        render_node(&errs[i], cols, out);
        cols.pop();
        proof {
            assert(cols@ =~= old(cols)@);
        }
        render_items(errs, i + 1, cols, out);
        proof {
            assert(out@ =~= old(out)@ + spec_render_items(*errs, i as int, old(cols)@));
        }
    } else {
        proof {
            assert(out@ =~= old(out)@ + spec_render_items(*errs, i as int, old(cols)@));
        }
    }
}

/// A pretty, tree-shaped display of an error.
pub struct PrettyDisplay<'a> {
    /// The error to render.
    root: &'a AppError,
}

impl<'a> PrettyDisplay<'a> {
    /// The error being rendered.
    pub closed spec fn spec_root(&self) -> AppError {
        *self.root
    }

    /// Creates a pretty display of an error.
    pub fn new(root: &'a AppError) -> (r: Self)
        ensures
            r.spec_root() == *root,
    {
        PrettyDisplay { root }
    }

    /// Renders the error as a tree, one error per line.
    pub fn render(&self) -> (r: String)
        ensures
            r@ == spec_pretty(self.spec_root()),
    {
        let mut out = String::new();
        let mut cols: Vec<Column> = Vec::new();
        render_node(self.root, &mut cols, &mut out);
        out
    }

    /// Adds a callback that chooses whether to ignore an error.
    pub fn with_ignore_err<F: Fn(&AppError) -> bool + Copy>(self, ignore_err: F) -> (r:
        PrettyDisplayFiltered<'a, F>)
        ensures
            r.spec_root() == self.spec_root(),
            r.spec_ignore() == ignore_err,
    {
        PrettyDisplayFiltered { root: self.root, ignore_err }
    }
}

impl AppError {
    /// Returns an object that renders this error as a tree.
    pub fn pretty(&self) -> (r: PrettyDisplay<'_>)
        ensures
            r.spec_root() == *self,
    {
        PrettyDisplay::new(self)
    }
}

/// Whether an error tree contains no empty bundle. An empty bundle counts as
/// ignored under any filter, so a filtered rendering is pinned down only for
/// trees without one.
pub open spec fn no_empty_multiple(e: AppError) -> bool
    decreases e,
{
    match e {
        AppError::Single { source: Some(b), .. } => no_empty_multiple(*b),
        AppError::Single { source: None, .. } => true,
        AppError::Multiple(errs) => errs.len() > 0 && forall|i: int|
            0 <= i < errs.len() ==> no_empty_multiple(errs[i]),
    }
}

/// Whether a filter can be called on any error.
pub open spec fn filter_callable<F: Fn(&AppError) -> bool>(f: F) -> bool {
    forall|e: &AppError| call_requires(f, (e,))
}

/// Whether a filter never asks to ignore anything.
pub open spec fn never_ignores<F: Fn(&AppError) -> bool>(f: F) -> bool {
    forall|e: &AppError, b: bool| call_ensures(f, (e,), b) ==> !b
}

/// Returns whether an error should be left out of the rendering: a single
/// error is ignored when the filter ignores it or any cause below it; a
/// bundle is ignored when every entry is.
fn should_ignore<F: Fn(&AppError) -> bool + Copy>(err: &AppError, f: F) -> (r: bool)
    requires
        filter_callable(f),
    ensures
        never_ignores(f) && no_empty_multiple(*err) ==> !r,
    decreases *err,
{
    match err {
        AppError::Single { source, .. } => {
            if f(err) {
                true
            } else {
                match source {
                    Some(b) => should_ignore(&**b, f),
                    None => false,
                }
            }
        },
        AppError::Multiple(errs) => {
            let mut i: usize = 0;
            let mut all: bool = true;
            #[verifier::loop_isolation(false)]
            while i < errs.len()
                invariant
                    i <= errs.len(),
                    never_ignores(f) && (forall|j: int|
                        0 <= j < errs@.len() ==> no_empty_multiple(errs@[j])) && i > 0 ==> !all,
                decreases errs.len() - i,
            {
                proof {
                    assert(decreases_to!(*err => err->Multiple_0));
                    assert(decreases_to!(err->Multiple_0 => err->Multiple_0@[i as int]));
                }
                if !should_ignore(&errs[i], f) {
                    all = false;
                }
                i += 1;
            }
            all
        },
    }
}

fn render_node_filtered<F: Fn(&AppError) -> bool + Copy>(
    e: &AppError,
    cols: &mut Vec<Column>,
    out: &mut String,
    ign: F,
)
    requires
        filter_callable(ign),
    ensures
        final(cols)@ == old(cols)@,
        never_ignores(ign) && no_empty_multiple(*e) ==> final(out)@ == old(out)@
            + spec_render_node(*e, old(cols)@),
    decreases *e, 0int, 1int,
{
    match e {
        AppError::Single { msg, source } => {
            out.append(msg.as_str());
            render_src_filtered(source, cols, out, ign);
            proof {
                if never_ignores(ign) && no_empty_multiple(*e) {
                    assert(out@ =~= old(out)@ + spec_render_node(*e, old(cols)@));
                }
            }
        },
        AppError::Multiple(errs) => {
            proof {
                assert(decreases_to!(*e => e->Multiple_0));
            }
            out.append("Multiple errors:");
            let ignored = render_items_filtered(errs, 0, 0, cols, out, ign);
            if ignored != 0 {
                out.append("\n");
                append_cols(cols, 0, out);
                out.append("└─");
                out.append("(");
                let d = dec_string(ignored as u64);
                out.append(d.as_str());
                out.append(" ignored errors)");
            }
            proof {
                if never_ignores(ign) && no_empty_multiple(*e) {
                    assert(out@ =~= old(out)@ + spec_render_node(*e, old(cols)@));
                }
            }
        },
    }
}

fn render_src_filtered<F: Fn(&AppError) -> bool + Copy>(
    src: &Option<Box<AppError>>,
    cols: &mut Vec<Column>,
    out: &mut String,
    ign: F,
)
    requires
        filter_callable(ign),
    ensures
        final(cols)@ == old(cols)@,
        never_ignores(ign) && (*src matches Some(b) ==> no_empty_multiple(*b)) ==> final(out)@
            == old(out)@ + spec_render_src(*src, old(cols)@),
    decreases *src, 0int, 0int,
{
    match src {
        None => {},
        Some(b) => {
            out.append("\n");
            append_cols(cols, 0, out);
            out.append("└─");
            cols.push(Column::Empty);
            render_node_filtered(&**b, cols, out, ign);
            cols.pop();
            proof {
                assert(cols@ =~= old(cols)@);
                if never_ignores(ign) && no_empty_multiple(**b) {
                    assert(out@ =~= old(out)@ + spec_render_src(*src, old(cols)@));
                }
            }
        },
    }
}

fn render_items_filtered<F: Fn(&AppError) -> bool + Copy>(
    errs: &Vec<AppError>,
    i: usize,
    ignored_so_far: usize,
    cols: &mut Vec<Column>,
    out: &mut String,
    ign: F,
) -> (ignored: usize)
    requires
        filter_callable(ign),
        i <= errs.len(),
        ignored_so_far <= i,
    ensures
        final(cols)@ == old(cols)@,
        ignored <= errs.len(),
        never_ignores(ign) && ignored_so_far == 0 && (forall|j: int|
            0 <= j < errs@.len() ==> no_empty_multiple(errs@[j])) ==> ignored == 0 && final(out)@
            == old(out)@ + spec_render_items(*errs, i as int, old(cols)@),
    decreases *errs, errs.len() - i, 0int,
{
    if i >= errs.len() {
        return ignored_so_far;
    }
    proof {
        assert(decreases_to!(errs@ => errs@[i as int]));
    }
    let skip: bool = should_ignore(&errs[i], ign);
    if skip {
        render_items_filtered(errs, i + 1, ignored_so_far + 1, cols, out, ign)
    } else {
        out.append("\n");
        append_cols(cols, 0, out);
        let last: bool = i == errs.len() - 1 && ignored_so_far == 0;
        if last {
            out.append("└─");
            cols.push(Column::Empty);
        } else {
            out.append("├─");
            cols.push(Column::Line);
        }
        render_node_filtered(&errs[i], cols, out, ign);
        cols.pop();
        proof {
            assert(cols@ =~= old(cols)@);
        }
        let r = render_items_filtered(errs, i + 1, ignored_so_far, cols, out, ign);
        proof {
            if never_ignores(ign) && ignored_so_far == 0 && (forall|j: int|
                0 <= j < errs@.len() ==> no_empty_multiple(errs@[j])) {
                assert(out@ =~= old(out)@ + spec_render_items(*errs, i as int, old(cols)@));
            }
        }
        r
    }
}

/// A pretty display with a filter: bundle entries the filter asks to ignore
/// are left out of the rendering and counted in a closing line.
pub struct PrettyDisplayFiltered<'a, F: Fn(&AppError) -> bool + Copy> {
    /// The error to render.
    root: &'a AppError,
    /// The filter choosing which errors to leave out.
    ignore_err: F,
}

impl<'a, F: Fn(&AppError) -> bool + Copy> PrettyDisplayFiltered<'a, F> {
    /// The error being rendered.
    pub closed spec fn spec_root(&self) -> AppError {
        *self.root
    }

    /// The filter.
    pub closed spec fn spec_ignore(&self) -> F {
        self.ignore_err
    }

    /// Renders the error as a tree, leaving out what the filter ignores. The
    /// output is pinned down here only for a filter that never fires; what a
    /// firing filter leaves out is checked by tests, not stated here, since a
    /// callback's per-node choices are not visible to the specification.
    pub fn render(&self) -> (r: String)
        requires
            filter_callable(self.spec_ignore()),
        ensures
            never_ignores(self.spec_ignore()) && no_empty_multiple(self.spec_root()) ==> r@
                == spec_pretty(self.spec_root()),
    {
        let mut out = String::new();
        let mut cols: Vec<Column> = Vec::new();
        render_node_filtered(self.root, &mut cols, &mut out, self.ignore_err);
        out
    }
}

} // verus!
