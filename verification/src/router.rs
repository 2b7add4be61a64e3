//! The control-plane surface: the static version report and the uniform
//! wrapping of every handler result into the response envelope.

use vstd::prelude::*;

use crate::data::{JsonResponse, Payload, ServiceError, VersionInfo};

verus! {

/// The build version reported by the version route.
pub fn build_version() -> (r: String)
    ensures
        r@ == "1.0.0"@,
{
    "1.0.0".to_owned()
}

/// Reports the service's name and build version; never fails.
pub fn version() -> (r: Result<VersionInfo, ServiceError>)
    ensures
        r is Ok,
        r->Ok_0.service@ == "Desktop Service"@,
        r->Ok_0.version@ == "1.0.0"@,
{
    Ok(VersionInfo { service: "Desktop Service".to_owned(), version: build_version() })
}

/// Wraps a handler result in the uniform envelope: success becomes code 0
/// with message `ok` and the handler's payload; failure becomes code 400
/// with the error's text and no payload.  No other code ever leaves a
/// handler.
pub fn envelope(result: Result<Option<Payload>, ServiceError>) -> (r: JsonResponse)
    ensures
        r.code == 0 || r.code == 400,
        match result {
            Ok(d) => r.code == 0 && r.msg@ == "ok"@ && r.data == d,
            Err(e) => r.code == 400 && r.msg@ == e.msg_view() && r.data is None,
        },
{
    match result {
        Ok(d) => JsonResponse { code: 0, msg: "ok".to_owned(), data: d },
        Err(e) => JsonResponse { code: 400, msg: e.msg(), data: None },
    }
}

} // verus!
