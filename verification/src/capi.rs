//! Decisions of the C ABI: status codes, backend selection, error values, the
//! settling of an entry point's outcome into a status code or sentinel, and
//! the validation of incoming C strings.
use vstd::prelude::*;
use vstd::string::StringSliceAdditionalSpecFns;
use vstd::utf8::{encode_utf8, valid_utf8};
use crate::text::{concat, decimal, decimal_chars, str_from_utf8};

verus! {

/// Version of the C ABI (not of the engine).
pub const SAPIENT_API_VERSION: u32 = 1;

/// Success.
pub const SAPIENT_OK: i32 = 0;

/// A NULL pointer, non-UTF-8 string, or out-of-range value was passed in.
pub const SAPIENT_ERR_INVALID_ARGUMENT: i32 = -1;

/// Model download, resolution, or weight loading failed.
pub const SAPIENT_ERR_LOAD: i32 = -2;

/// Generation failed after the model was loaded.
pub const SAPIENT_ERR_GENERATION: i32 = -3;

/// An unexpected internal failure (runtime join, poisoned lock, ...).
pub const SAPIENT_ERR_INTERNAL: i32 = -4;

/// A panic was caught at the boundary.
pub const SAPIENT_ERR_PANIC: i32 = -5;

/// Resolve to whatever accelerator the build supports, falling back to CPU.
pub const SAPIENT_BACKEND_AUTO: i32 = 0;

/// Force the CPU engine.
pub const SAPIENT_BACKEND_CPU: i32 = 1;

/// Force Apple MLX/Metal.
pub const SAPIENT_BACKEND_METAL: i32 = 2;

/// Force the portable GPU path.
pub const SAPIENT_BACKEND_WGPU: i32 = 3;

/// An error: a status code and a human-readable reason.
#[derive(Debug)]
pub struct CapiError {
    pub code: i32,
    pub message: String,
}

impl CapiError {
    pub fn new(code: i32, message: String) -> (e: Self)
        ensures
            e.code == code,
            e.message@ == message@,
    {
        CapiError { code, message }
    }

    /// An invalid-argument error.
    pub fn invalid(message: String) -> (e: Self)
        ensures
            e.code == SAPIENT_ERR_INVALID_ARGUMENT,
            e.message@ == message@,
    {
        Self::new(SAPIENT_ERR_INVALID_ARGUMENT, message)
    }
}

/// The engine backend a `SAPIENT_BACKEND_*` constant selects.
#[derive(PartialEq, Eq, Structural, Debug, Clone, Copy)]
pub enum Backend {
    Auto,
    Cpu,
    Metal,
    Wgpu,
}

/// The backend a constant names, if any.
pub open spec fn backend_of(code: i32) -> Option<Backend> {
    if code == SAPIENT_BACKEND_AUTO {
        Some(Backend::Auto)
    } else if code == SAPIENT_BACKEND_CPU {
        Some(Backend::Cpu)
    } else if code == SAPIENT_BACKEND_METAL {
        Some(Backend::Metal)
    } else if code == SAPIENT_BACKEND_WGPU {
        Some(Backend::Wgpu)
    } else {
        None
    }
}

/// The message for a backend constant that names nothing.
pub open spec fn unknown_backend_message(code: i32) -> Seq<char> {
    "unknown backend "@ + decimal_chars(code as int) + " (expected 0=auto, 1=cpu, 2=metal, 3=wgpu)"@
}

/// The four backend constants name the four backends, in order, and every
/// other value names none.
pub proof fn law_backend_constants(code: i32)
    ensures
        backend_of(0) == Some(Backend::Auto),
        backend_of(1) == Some(Backend::Cpu),
        backend_of(2) == Some(Backend::Metal),
        backend_of(3) == Some(Backend::Wgpu),
        backend_of(code) is Some <==> 0 <= code <= 3,
{
}

/// A panic's message is one fixed prefix followed by the panic's whole text.
pub proof fn law_panic_message_ends_with_detail(detail: Seq<char>)
    ensures
        panic_message(detail) == panic_message(Seq::<char>::empty()) + detail,
        panic_message(detail).subrange(
            panic_message(Seq::<char>::empty()).len() as int,
            panic_message(detail).len() as int,
        ) == detail,
{
    assert(panic_message(detail) =~= panic_message(Seq::<char>::empty()) + detail);
    assert(panic_message(detail).subrange(
        panic_message(Seq::<char>::empty()).len() as int,
        panic_message(detail).len() as int,
    ) =~= detail);
}

/// Map a `SAPIENT_BACKEND_*` constant to a backend; any other value is an
/// invalid argument that names the value.
pub fn backend_kind(backend: i32) -> (r: Result<Backend, CapiError>)
    ensures
        r is Ok <==> backend_of(backend) is Some,
        r matches Ok(b) ==> backend_of(backend) == Some(b),
        r matches Err(e) ==> e.code == SAPIENT_ERR_INVALID_ARGUMENT && e.message@
            == unknown_backend_message(backend),
{
    if backend == SAPIENT_BACKEND_AUTO {
        Ok(Backend::Auto)
    } else if backend == SAPIENT_BACKEND_CPU {
        Ok(Backend::Cpu)
    } else if backend == SAPIENT_BACKEND_METAL {
        Ok(Backend::Metal)
    } else if backend == SAPIENT_BACKEND_WGPU {
        Ok(Backend::Wgpu)
    } else {
        let head = concat("unknown backend ", decimal(backend).as_str());
        let msg = concat(head.as_str(), " (expected 0=auto, 1=cpu, 2=metal, 3=wgpu)");
        Err(CapiError::invalid(msg))
    }
}

/// How the body of an entry point ended.
pub enum Outcome<T> {
    /// It returned a value.
    Completed(T),
    /// It returned an error.
    Failed(CapiError),
    /// It panicked; the panic's text (or `unknown panic`).
    Panicked(String),
}

/// The message of a caught panic.
pub open spec fn panic_message(detail: Seq<char>) -> Seq<char> {
    "panic caught at FFI boundary: "@ + detail
}

/// Turn a caught panic's text into an error carrying `SAPIENT_ERR_PANIC`.
pub fn panic_error(detail: &str) -> (e: CapiError)
    ensures
        e.code == SAPIENT_ERR_PANIC,
        e.message@ == panic_message(detail@),
{
    CapiError::new(SAPIENT_ERR_PANIC, concat("panic caught at FFI boundary: ", detail))
}

/// Settle an entry point that returns a status code: its own value when it
/// completed, otherwise the error's own code (never a fixed sentinel), with the
/// error to report beside it.
pub fn guard_status(outcome: Outcome<i32>) -> (r: (i32, Option<CapiError>))
    ensures
        outcome matches Outcome::Completed(v) ==> r.0 == v && r.1 is None,
        outcome matches Outcome::Failed(e) ==> r.0 == e.code && r.1 == Some(e),
        outcome matches Outcome::Panicked(d) ==> r.0 == SAPIENT_ERR_PANIC && (r.1 matches Some(e)
            && e.code == SAPIENT_ERR_PANIC && e.message@ == panic_message(d@)),
{
    match outcome {
        Outcome::Completed(v) => (v, None),
        Outcome::Failed(e) => (e.code, Some(e)),
        Outcome::Panicked(d) => (SAPIENT_ERR_PANIC, Some(panic_error(d.as_str()))),
    }
}

/// Settle an entry point that returns a value: the value when it completed,
/// otherwise the documented failure sentinel `on_err`, with the error to
/// report beside it.
pub fn guard<T>(on_err: T, outcome: Outcome<T>) -> (r: (T, Option<CapiError>))
    ensures
        outcome matches Outcome::Completed(v) ==> r.0 == v && r.1 is None,
        outcome matches Outcome::Failed(e) ==> r.0 == on_err && r.1 == Some(e),
        outcome matches Outcome::Panicked(d) ==> r.0 == on_err && (r.1 matches Some(e) && e.code
            == SAPIENT_ERR_PANIC && e.message@ == panic_message(d@)),
{
    match outcome {
        Outcome::Completed(v) => (v, None),
        Outcome::Failed(e) => (on_err, Some(e)),
        Outcome::Panicked(d) => (on_err, Some(panic_error(d.as_str()))),
    }
}

/// The status code an error handle carries; no handle reads as an invalid
/// argument.
pub fn error_code(err: Option<&CapiError>) -> (code: i32)
    ensures
        err matches Some(e) ==> code == e.code,
        err is None ==> code == SAPIENT_ERR_INVALID_ARGUMENT,
{
    match err {
        Some(e) => e.code,
        None => SAPIENT_ERR_INVALID_ARGUMENT,
    }
}

/// Borrow a C string's bytes (`None` for a NULL pointer) as text, rejecting
/// NULL and non-UTF-8 with an invalid-argument error that names `what`.
pub fn cstr<'a>(bytes: Option<&'a [u8]>, what: &str) -> (r: Result<&'a str, CapiError>)
    ensures
        bytes is None ==> (r matches Err(e) && e.code == SAPIENT_ERR_INVALID_ARGUMENT && e.message@
            == what@ + " must not be NULL"@),
        bytes matches Some(b) ==> (r is Ok <==> valid_utf8(b@)),
        bytes matches Some(b) ==> (r matches Ok(s) ==> s.spec_bytes() == b@),
        bytes matches Some(b) ==> (r matches Err(e) ==> e.code == SAPIENT_ERR_INVALID_ARGUMENT
            && e.message@ == what@ + " must be valid UTF-8"@),
{
    match bytes {
        None => Err(CapiError::invalid(concat(what, " must not be NULL"))),
        Some(b) => match str_from_utf8(b) {
            Some(s) => Ok(s),
            None => Err(CapiError::invalid(concat(what, " must be valid UTF-8"))),
        },
    }
}

/// Borrow a session handle (`None` for a NULL pointer), rejecting NULL.
pub fn session<T>(handle: Option<T>) -> (r: Result<T, CapiError>)
    ensures
        handle matches Some(h) ==> r == Ok::<T, CapiError>(h),
        handle is None ==> (r matches Err(e) && e.code == SAPIENT_ERR_INVALID_ARGUMENT && e.message@
            == "session must not be NULL"@),
{
    match handle {
        Some(h) => Ok(h),
        None => Err(CapiError::invalid("session must not be NULL".to_owned())),
    }
}

/// Reject a NULL out-parameter (`present == false`).
pub fn require_out(present: bool) -> (r: Result<(), CapiError>)
    ensures
        present <==> r is Ok,
        r matches Err(e) ==> e.code == SAPIENT_ERR_INVALID_ARGUMENT && e.message@
            == "out must not be NULL"@,
{
    if present {
        Ok(())
    } else {
        Err(CapiError::invalid("out must not be NULL".to_owned()))
    }
}

/// Reject a NULL token callback (`present == false`).
pub fn require_callback(present: bool) -> (r: Result<(), CapiError>)
    ensures
        present <==> r is Ok,
        r matches Err(e) ==> e.code == SAPIENT_ERR_INVALID_ARGUMENT && e.message@
            == "on_token must not be NULL"@,
{
    if present {
        Ok(())
    } else {
        Err(CapiError::invalid("on_token must not be NULL".to_owned()))
    }
}

/// The error for a model that could not be downloaded, resolved or loaded,
/// carrying the engine's reason.
pub fn load_failed(reason: String) -> (e: CapiError)
    ensures
        e.code == SAPIENT_ERR_LOAD,
        e.message@ == reason@,
{
    CapiError::new(SAPIENT_ERR_LOAD, reason)
}

/// The error for a turn whose generation failed after the model was loaded,
/// carrying the engine's reason.
pub fn generation_failed(reason: String) -> (e: CapiError)
    ensures
        e.code == SAPIENT_ERR_GENERATION,
        e.message@ == reason@,
{
    CapiError::new(SAPIENT_ERR_GENERATION, reason)
}

/// The error for text that cannot be handed to C.
pub fn encoding_failed(what: &str) -> (e: CapiError)
    ensures
        e.code == SAPIENT_ERR_INTERNAL,
        e.message@ == "could not encode "@ + what@ + " for C"@,
{
    let head = concat("could not encode ", what);
    CapiError::new(SAPIENT_ERR_INTERNAL, concat(head.as_str(), " for C"))
}

/// The validated inputs of a model load.
pub struct LoadRequest {
    pub model: String,
    pub system_prompt: Option<String>,
    pub backend: Backend,
}

/// Validate the inputs of a model load, in the order the load reads them: the
/// model name (NULL or non-UTF-8 is an invalid argument), then the optional
/// system prompt (`None` for NULL, which means no prompt; non-UTF-8 is an
/// invalid argument), then the backend constant.
pub fn load_request(model: Option<&[u8]>, system_prompt: Option<&[u8]>, backend: i32) -> (r:
    Result<LoadRequest, CapiError>)
    ensures
        model is None ==> (r matches Err(e) && e.code == SAPIENT_ERR_INVALID_ARGUMENT && e.message@
            == "model"@ + " must not be NULL"@),
        model matches Some(m) && !valid_utf8(m@) ==> (r matches Err(e) && e.code
            == SAPIENT_ERR_INVALID_ARGUMENT && e.message@ == "model"@ + " must be valid UTF-8"@),
        model matches Some(m) && valid_utf8(m@) && (system_prompt matches Some(p) && !valid_utf8(
            p@,
        )) ==> (r matches Err(e) && e.code == SAPIENT_ERR_INVALID_ARGUMENT && e.message@
            == "system_prompt"@ + " must be valid UTF-8"@),
        model matches Some(m) && valid_utf8(m@) && !(system_prompt matches Some(p) && !valid_utf8(
            p@,
        )) && backend_of(backend) is None ==> (r matches Err(e) && e.code
            == SAPIENT_ERR_INVALID_ARGUMENT && e.message@ == unknown_backend_message(backend)),
        r matches Ok(req) ==> model matches Some(m) && encode_utf8(req.model@) == m@ && Some(
            req.backend,
        ) == backend_of(backend) && match system_prompt {
            None => req.system_prompt is None,
            Some(p) => req.system_prompt matches Some(s) && encode_utf8(s@) == p@,
        },
        r is Ok <==> (model matches Some(m) && valid_utf8(m@)) && !(system_prompt matches Some(p)
            && !valid_utf8(p@)) && backend_of(backend) is Some,
{
    let name = match cstr(model, "model") {
        Ok(s) => s,
        Err(e) => return Err(e),
    };
    let prompt = match system_prompt {
        None => None,
        Some(p) => match cstr(Some(p), "system_prompt") {
            Ok(s) => Some(s.to_owned()),
            Err(e) => return Err(e),
        },
    };
    let kind = match backend_kind(backend) {
        Ok(b) => b,
        Err(e) => return Err(e),
    };
    Ok(LoadRequest { model: name.to_owned(), system_prompt: prompt, backend: kind })
}

} // verus!
