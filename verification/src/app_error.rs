//! An application-level error value: a message with an optional cause chain,
//! or a bundle of several errors, with helpers to render the chain as text.

use vstd::prelude::*;

verus! {

/// An error suited to applications that only show errors to users: either a
/// single message with an optional source error, or a bundle of errors.
#[derive(Debug)]
pub enum AppError {
    /// A single error message with an optional cause.
    Single { msg: String, source: Option<Box<AppError>> },
    /// Several errors bundled into one.
    Multiple(Vec<AppError>),
}

/// Structural equality of two errors, comparing messages by their text.
pub open spec fn ae_eq(a: AppError, b: AppError) -> bool
    decreases a,
{
    match (a, b) {
        (AppError::Single { msg: m1, source: s1 }, AppError::Single { msg: m2, source: s2 }) => {
            &&& m1@ == m2@
            &&& match (s1, s2) {
                (None, None) => true,
                (Some(x), Some(y)) => ae_eq(*x, *y),
                _ => false,
            }
        },
        (AppError::Multiple(e1), AppError::Multiple(e2)) => {
            &&& e1.len() == e2.len()
            &&& forall|i: int| 0 <= i < e1.len() ==> ae_eq(e1[i], e2[i])
        },
        _ => false,
    }
}

impl vstd::std_specs::cmp::PartialEqSpecImpl for AppError {
    open spec fn obeys_eq_spec() -> bool {
        true
    }

    open spec fn eq_spec(&self, other: &AppError) -> bool {
        ae_eq(*self, *other)
    }
}

impl PartialEq for AppError {
    #[verifier::loop_isolation(false)]
    fn eq(&self, other: &Self) -> (r: bool)
        decreases *self,
    {
        match self {
            AppError::Single { msg: m1, source: s1 } => match other {
                AppError::Single { msg: m2, source: s2 } => {
                    if !m1.eq(m2) {
                        false
                    } else {
                        match (s1, s2) {
                            (None, None) => true,
                            (Some(x), Some(y)) => (**x).eq(&**y),
                            _ => false,
                        }
                    }
                },
                _ => false,
            },
            AppError::Multiple(e1) => match other {
                AppError::Multiple(e2) => {
                    if e1.len() != e2.len() {
                        false
                    } else {
                        let mut i: usize = 0;
                        let mut all_eq: bool = true;
                        while i < e1.len()
                            invariant
                                i <= e1.len() == e2.len(),
                                all_eq <==> forall|j: int| 0 <= j < i ==> ae_eq(e1@[j], e2@[j]),
                            decreases e1.len() - i,
                        {
                            proof {
                                assert(decreases_to!(*self => self->Multiple_0));
                                assert(decreases_to!(self->Multiple_0 => self->Multiple_0@[i as int]));
                            }
                            if !(e1[i] == e2[i]) {
                                all_eq = false;
                            }
                            i += 1;
                        }
                        all_eq
                    }
                },
                _ => false,
            },
        }
    }
}

impl Clone for AppError {
    #[verifier::loop_isolation(false)]
    fn clone(&self) -> (r: Self)
        ensures
            ae_eq(r, *self),
        decreases *self,
    {
        match self {
            AppError::Single { msg, source } => AppError::Single {
                msg: msg.clone(),
                source: match source {
                    Some(b) => Some(Box::new((**b).clone())),
                    None => None,
                },
            },
            AppError::Multiple(errs) => {
                let mut out: Vec<AppError> = Vec::new();
                let mut i: usize = 0;
                while i < errs.len()
                    invariant
                        i <= errs.len(),
                        out.len() == i,
                        forall|j: int| 0 <= j < i ==> ae_eq(out@[j], errs@[j]),
                    decreases errs.len() - i,
                {
                    proof {
                        assert(decreases_to!(*self => self->Multiple_0));
                        assert(decreases_to!(self->Multiple_0 => self->Multiple_0@[i as int]));
                    }
                    out.push(errs[i].clone());
                    i += 1;
                }
                AppError::Multiple(out)
            },
        }
    }
}

impl AppError {
    /// Creates an error from a message, with no cause.
    pub fn msg(msg: String) -> (r: Self)
        ensures
            r == (AppError::Single { msg, source: None }),
    {
        AppError::Single { msg, source: None }
    }

    /// Wraps this error in a new message, keeping it as the cause.
    pub fn context(&self, msg: String) -> (r: Self)
        ensures
            r matches AppError::Single { msg: m, source: s } && m == msg && (s matches Some(b)
                && ae_eq(*b, *self)),
    {
        AppError::Single { msg, source: Some(Box::new(self.clone())) }
    }

    /// Bundles several errors into one.
    pub fn from_multiple(errs: Vec<AppError>) -> (r: Self)
        ensures
            r == AppError::Multiple(errs),
    {
        AppError::Multiple(errs)
    }
}

/// The text of a single decimal digit.
pub open spec fn digit_lit(d: int) -> Seq<char> {
    if d == 0 {
        "0"@
    } else if d == 1 {
        "1"@
    } else if d == 2 {
        "2"@
    } else if d == 3 {
        "3"@
    } else if d == 4 {
        "4"@
    } else if d == 5 {
        "5"@
    } else if d == 6 {
        "6"@
    } else if d == 7 {
        "7"@
    } else if d == 8 {
        "8"@
    } else {
        "9"@
    }
}

/// The decimal rendering of a non-negative integer.
pub open spec fn spec_dec(n: int) -> Seq<char>
    decreases n,
{
    if n < 10 {
        digit_lit(n)
    } else {
        spec_dec(n / 10) + digit_lit(n % 10)
    }
}

fn digit_str(d: u64) -> (s: &'static str)
    requires
        d < 10,
    ensures
        s@ == spec_dec(d as int),
{
    match d {
        0 => "0",
        1 => "1",
        2 => "2",
        3 => "3",
        4 => "4",
        5 => "5",
        6 => "6",
        7 => "7",
        8 => "8",
        _ => "9",
    }
}

/// Renders an unsigned integer in decimal.
pub fn dec_string(n: u64) -> (s: String)
    ensures
        s@ == spec_dec(n as int),
    decreases n,
{
    if n < 10 {
        digit_str(n).to_owned()
    } else {
        let mut s = dec_string(n / 10);
        s.append(digit_str(n % 10));
        s
    }
}

/// The source error that a value reports: a single error's cause, or the
/// first of a bundle.
pub open spec fn spec_source(e: AppError) -> Option<AppError> {
    match e {
        AppError::Single { source, .. } => match source {
            Some(b) => Some(*b),
            None => None,
        },
        AppError::Multiple(errs) => if errs.len() > 0 {
            Some(errs[0])
        } else {
            None
        },
    }
}

/// The number of links in the source chain below an error.
pub open spec fn chain_len(e: AppError) -> nat
    decreases e,
{
    match e {
        AppError::Single { source: Some(b), .. } => 1 + chain_len(*b),
        AppError::Single { source: None, .. } => 0,
        AppError::Multiple(errs) => if errs.len() > 0 {
            1 + chain_len(errs[0])
        } else {
            0
        },
    }
}

impl AppError {
    /// Returns the source error, if any: a single error's cause, or the first
    /// error of a bundle.
    pub fn source(&self) -> (r: Option<&AppError>)
        ensures
            match r {
                Some(e) => spec_source(*self) == Some(*e),
                None => spec_source(*self) is None,
            },
    {
        match self {
            AppError::Single { source, .. } => match source {
                Some(b) => Some(&**b),
                None => None,
            },
            AppError::Multiple(errs) => if errs.len() > 0 {
                Some(&errs[0])
            } else {
                None
            },
        }
    }
}

/// The one-line text of an error: its message, or a count of bundled errors.
pub open spec fn spec_display(e: AppError) -> Seq<char> {
    match e {
        AppError::Single { msg, .. } => msg@,
        AppError::Multiple(errs) => "Multiple errors ("@ + spec_dec(errs.len() as int) + ")"@,
    }
}

impl AppError {
    /// Renders the one-line text of this error.
    pub fn display_string(&self) -> (s: String)
        ensures
            s@ == spec_display(*self),
    {
        match self {
            AppError::Single { msg, .. } => msg.clone(),
            AppError::Multiple(errs) => {
                let mut s = "Multiple errors (".to_owned();
                let n = dec_string(errs.len() as u64);
                s.append(n.as_str());
                s.append(")");
                s
            },
        }
    }
}

/// The rendering of the source chain below an error: one indented, numbered
/// line per source, numbering starting at `n`.
pub open spec fn spec_fmt_chain(e: AppError, n: int) -> Seq<char>
    decreases e,
{
    match e {
        AppError::Single { source: Some(b), .. } => "\n  "@ + spec_dec(n) + ": "@ + spec_display(
            *b,
        ) + spec_fmt_chain(*b, n + 1),
        AppError::Single { source: None, .. } => Seq::<char>::empty(),
        AppError::Multiple(errs) => if errs.len() > 0 {
            "\n  "@ + spec_dec(n) + ": "@ + spec_display(errs[0]) + spec_fmt_chain(errs[0], n + 1)
        } else {
            Seq::<char>::empty()
        },
    }
}

/// The full rendering of an error: its own line, then its source chain.
pub open spec fn spec_fmt_err(e: AppError) -> Seq<char> {
    spec_display(e) + spec_fmt_chain(e, 1)
}

fn fmt_chain(e: &AppError, n: usize, s: &mut String)
    requires
        1 <= n,
        n + chain_len(*e) <= usize::MAX,
    ensures
        final(s)@ == old(s)@ + spec_fmt_chain(*e, n as int),
    decreases *e,
{
    let next: Option<&AppError> = match e {
        AppError::Single { source, .. } => match source {
            Some(b) => Some(&**b),
            None => None,
        },
        AppError::Multiple(errs) => if errs.len() > 0 {
            proof {
                assert(decreases_to!(*e => e->Multiple_0));
                assert(decreases_to!(e->Multiple_0 => e->Multiple_0@[0]));
            }
            Some(&errs[0])
        } else {
            None
        },
    };
    match next {
        Some(src) => {
            s.append("\n  ");
            let d = dec_string(n as u64);
            s.append(d.as_str());
            s.append(": ");
            let disp = src.display_string();
            s.append(disp.as_str());
            fmt_chain(src, n + 1, s);
        },
        None => {},
    }
}

/// Renders an error as its own message followed by its numbered source chain.
pub fn fmt_err(err: &AppError) -> (s: String)
    requires
        chain_len(*err) < usize::MAX,
    ensures
        s@ == spec_fmt_err(*err),
{
    let mut s = err.display_string();
    fmt_chain(err, 1, &mut s);
    s
}

/// A rendered error, kept as plain text.
pub struct ErrDisplay {
    pub rendered: String,
}

impl ErrDisplay {
    /// The rendered text.
    pub fn as_str(&self) -> (s: &str)
        ensures
            s@ == self.rendered@,
    {
        self.rendered.as_str()
    }
}

/// Renders an error chain into a reusable display value.
pub fn fmt_err_wrapper(err: &AppError) -> (w: ErrDisplay)
    requires
        chain_len(*err) < usize::MAX,
    ensures
        w.rendered@ == spec_fmt_err(*err),
{
    ErrDisplay { rendered: fmt_err(err) }
}

/// Renders an error chain into a display value that owns the error.
pub fn fmt_err_wrapper_owned(err: AppError) -> (w: ErrDisplay)
    requires
        chain_len(err) < usize::MAX,
    ensures
        w.rendered@ == spec_fmt_err(err),
{
    ErrDisplay { rendered: fmt_err(&err) }
}

/// Adding a context message to a fallible value.
pub trait Context: Sized {
    type Output;

    /// What `context` is required to return.
    spec fn context_post(self, msg: Seq<char>, r: Self::Output) -> bool;

    /// Wraps the error of this value, if any, in a new message.
    fn context(self, msg: String) -> (r: Self::Output)
        ensures
            self.context_post(msg@, r),
    ;

    /// Whether this value carries an error that a context message would be
    /// produced for.
    spec fn needs_context(self) -> bool;

    /// Wraps the error of this value, if any, in a lazily produced message;
    /// the message is only produced when there is an error to wrap.
    fn with_context<F: FnOnce() -> String>(self, with_msg: F) -> (r: Self::Output)
        requires
            self.needs_context() ==> call_requires(with_msg, ()),
        ensures
            self.needs_context() ==> exists|m: String|
                call_ensures(with_msg, (), m) && self.context_post(m@, r),
            !self.needs_context() ==> self.context_post(Seq::<char>::empty(), r),
    ;
}

impl<T> Context for Result<T, AppError> {
    type Output = Result<T, AppError>;

    open spec fn needs_context(self) -> bool {
        self is Err
    }

    open spec fn context_post(self, msg: Seq<char>, r: Self::Output) -> bool {
        match (self, r) {
            (Ok(t), Ok(t2)) => t == t2,
            (Err(e), Err(e2)) => e2 matches AppError::Single { msg: m, source: s } && m@ == msg && (
            s matches Some(b) && ae_eq(*b, e)),
            _ => false,
        }
    }

    fn context(self, msg: String) -> (r: Self::Output) {
        match self {
            Ok(t) => Ok(t),
            Err(e) => Err(e.context(msg)),
        }
    }

    fn with_context<F: FnOnce() -> String>(self, with_msg: F) -> (r: Self::Output) {
        match self {
            Ok(t) => Ok(t),
            Err(e) => {
                let m = with_msg();
                let ghost witness = m;
                let r = Err(e.context(m));
                proof {
                    assert(call_ensures(with_msg, (), witness) && self.context_post(witness@, r));
                }
                r
            },
        }
    }
}

impl<T> Context for Option<T> {
    type Output = Result<T, AppError>;

    open spec fn needs_context(self) -> bool {
        self is None
    }

    open spec fn context_post(self, msg: Seq<char>, r: Self::Output) -> bool {
        match (self, r) {
            (Some(t), Ok(t2)) => t == t2,
            (None, Err(e2)) => e2 matches AppError::Single { msg: m, source: s } && m@ == msg
                && s is None,
            _ => false,
        }
    }

    fn context(self, msg: String) -> (r: Self::Output) {
        match self {
            Some(t) => Ok(t),
            None => Err(AppError::msg(msg)),
        }
    }

    fn with_context<F: FnOnce() -> String>(self, with_msg: F) -> (r: Self::Output) {
        match self {
            Some(t) => Ok(t),
            None => {
                let m = with_msg();
                let ghost witness = m;
                let r = Err(AppError::msg(m));
                proof {
                    assert(call_ensures(with_msg, (), witness) && self.context_post(witness@, r));
                }
                r
            },
        }
    }
}

} // verus!
