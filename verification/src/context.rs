use vstd::prelude::*;
use crate::error::{ErrType, RuntimeError};

verus! {

/// The switches of one evaluation run.
#[derive(Clone, Copy, PartialEq, Eq, Structural, Debug)]
pub struct ContextConfig {
    /// Integers merged into a dictionary are range-checked.
    pub debug_mode: bool,
    /// The range check is against 32 bits; without it, against 64.
    pub strict_range_check: bool,
}

/// The last failure that was reported, and where in the source it arose.
#[derive(Debug)]
pub struct PanicInfo {
    pub err_type: Option<ErrType>,
    pub kcl_file: String,
    pub kcl_line: i32,
}

/// The context of one evaluation session. It is handed to every operation
/// that reads the switches or reports a failure.
#[derive(Debug)]
pub struct Context {
    pub cfg: ContextConfig,
    pub panic_info: PanicInfo,
}

/// The mathematical content of a [`Context`].
pub struct ContextView {
    pub cfg: ContextConfig,
    pub err_type: Option<ErrType>,
    pub kcl_file: Seq<char>,
    pub kcl_line: i32,
}

impl ContextView {
    /// The context once an operation has returned: a failure is recorded
    /// by its kind, a success changes nothing.
    pub open spec fn after<T>(self, r: Result<T, RuntimeError>) -> ContextView {
        match r {
            Ok(_) => self,
            Err(e) => ContextView { err_type: Some(e@.err_type()), ..self },
        }
    }
}

impl View for Context {
    type V = ContextView;

    open spec fn view(&self) -> ContextView {
        ContextView {
            cfg: self.cfg,
            err_type: self.panic_info.err_type,
            kcl_file: self.panic_info.kcl_file@,
            kcl_line: self.panic_info.kcl_line,
        }
    }
}

impl Context {
    /// A fresh context: no switch set, no failure recorded.
    pub fn new() -> (ctx: Context)
        ensures
            ctx@ == (ContextView {
                cfg: ContextConfig { debug_mode: false, strict_range_check: false },
                err_type: None,
                kcl_file: Seq::<char>::empty(),
                kcl_line: 0,
            }),
    {
        Context {
            cfg: ContextConfig { debug_mode: false, strict_range_check: false },
            panic_info: PanicInfo { err_type: None, kcl_file: String::new(), kcl_line: 0 },
        }
    }

    /// A fresh context with the given switches.
    pub fn with_config(debug_mode: bool, strict_range_check: bool) -> (ctx: Context)
        ensures
            ctx@ == (ContextView {
                cfg: ContextConfig { debug_mode, strict_range_check },
                err_type: None,
                kcl_file: Seq::<char>::empty(),
                kcl_line: 0,
            }),
    {
        Context {
            cfg: ContextConfig { debug_mode, strict_range_check },
            panic_info: PanicInfo { err_type: None, kcl_file: String::new(), kcl_line: 0 },
        }
    }

    /// Forgets the recorded failure and position; the switches stay.
    pub fn reset(&mut self)
        ensures
            final(self)@ == (ContextView {
                cfg: old(self)@.cfg,
                err_type: None,
                kcl_file: Seq::<char>::empty(),
                kcl_line: 0,
            }),
    {
        self.panic_info = PanicInfo { err_type: None, kcl_file: String::new(), kcl_line: 0 };
    }

    /// Records the kind of the failure that is about to surface.
    pub fn set_err_type(&mut self, err_type: ErrType)
        ensures
            final(self)@ == (ContextView { err_type: Some(err_type), ..old(self)@ }),
    {
        self.panic_info.err_type = Some(err_type);
    }

    /// Records the failure of an operation that takes no context, by its
    /// kind, and hands the result on; a success is handed on untouched.
    pub fn recorded<T>(&mut self, r: Result<T, RuntimeError>) -> (out: Result<T, RuntimeError>)
        ensures
            out == r,
            final(self)@ == old(self)@.after(r),
    {
        match &r {
            Ok(_) => {},
            Err(e) => {
                self.set_err_type(e.err_type());
            },
        }
        r
    }

    /// Records the source file that the failure is reported against.
    pub fn set_kcl_filename(&mut self, filename: &str)
        ensures
            final(self)@ == (ContextView { kcl_file: filename@, ..old(self)@ }),
    {
        self.panic_info.kcl_file = filename.to_owned();
    }

    /// Records the source line that the failure is reported against.
    pub fn set_kcl_line(&mut self, line: i32)
        ensures
            final(self)@ == (ContextView { kcl_line: line, ..old(self)@ }),
    {
        self.panic_info.kcl_line = line;
    }
}

} // verus!
