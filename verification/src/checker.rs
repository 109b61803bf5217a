use vstd::prelude::*;

verus! {

/// The outcome of checking one link: its HTTP status code (0 where no
/// response came) and, where the request failed, why.
#[derive(Debug, Clone)]
pub struct CheckResult {
    pub status_code: u16,
    pub error: Option<String>,
}

/// What a failed request tells about itself: whether it timed out, whether
/// the connection failed, whether it failed on an HTTP status, and that
/// status as text (code and reason, such as `404 Not Found`) where it has one.
#[derive(Debug, Clone)]
pub struct RequestFailure {
    pub is_timeout: bool,
    pub is_connect: bool,
    pub is_status: bool,
    pub status: Option<String>,
}

/// The message recorded for a failed request.
pub open spec fn failure_message(f: RequestFailure) -> Seq<char> {
    if f.is_timeout {
        "Timeout"@
    } else if f.is_connect {
        "Connection failed"@
    } else if f.is_status {
        "HTTP "@ + match f.status {
            Some(s) => s@,
            None => "error"@,
        }
    } else {
        "Request failed"@
    }
}

/// The message recorded for a failed request: a timeout first, then a
/// failed connection, then an HTTP status, else a generic failure.
pub fn format_error(err: &RequestFailure) -> (r: String)
    ensures
        r@ == failure_message(*err),
{
    if err.is_timeout {
        String::from_str("Timeout")
    } else if err.is_connect {
        String::from_str("Connection failed")
    } else if err.is_status {
        let status = match &err.status {
            Some(s) => s.as_str(),
            None => "error",
        };
        String::from_str("HTTP ").concat(status)
    } else {
        String::from_str("Request failed")
    }
}

/// The check result for a request that answered with status `Ok(code)` or
/// failed with `Err(failure)`.
pub fn check_result(outcome: Result<u16, RequestFailure>) -> (r: CheckResult)
    ensures
        match outcome {
            Ok(code) => r.status_code == code && r.error is None,
            Err(f) => r.status_code == 0 && (r.error matches Some(m) && m@ == failure_message(f)),
        },
{
    match outcome {
        Ok(code) => CheckResult { status_code: code, error: None },
        Err(f) => CheckResult { status_code: 0, error: Some(format_error(&f)) },
    }
}

} // verus!
