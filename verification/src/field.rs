//! OTel-standard attribute keys for structured log, span and metric fields.

use vstd::prelude::*;

verus! {

pub const HTTP_REQUEST_METHOD: &'static str = "http.request.method";

pub const HTTP_ROUTE: &'static str = "http.route";

pub const HTTP_RESPONSE_STATUS_CODE: &'static str = "http.response.status_code";

pub const RPC_METHOD: &'static str = "rpc.method";

pub const RPC_SERVICE: &'static str = "rpc.service";

pub const ERROR_TYPE: &'static str = "error.type";

pub const ENDUSER_ID: &'static str = "enduser.id";

pub const SERVER_ADDRESS: &'static str = "server.address";

pub const SERVER_PORT: &'static str = "server.port";

pub const NETWORK_PROTOCOL_NAME: &'static str = "network.protocol.name";

pub const MESSAGING_SYSTEM: &'static str = "messaging.system";

pub const MESSAGING_DESTINATION_NAME: &'static str = "messaging.destination.name";

/// The keys are OpenTelemetry's.
pub proof fn law_keys_are_the_standard_ones()
    ensures
        HTTP_REQUEST_METHOD@ == "http.request.method"@,
        HTTP_ROUTE@ == "http.route"@,
        HTTP_RESPONSE_STATUS_CODE@ == "http.response.status_code"@,
        RPC_METHOD@ == "rpc.method"@,
        RPC_SERVICE@ == "rpc.service"@,
        ERROR_TYPE@ == "error.type"@,
        ENDUSER_ID@ == "enduser.id"@,
        SERVER_ADDRESS@ == "server.address"@,
        SERVER_PORT@ == "server.port"@,
        NETWORK_PROTOCOL_NAME@ == "network.protocol.name"@,
        MESSAGING_SYSTEM@ == "messaging.system"@,
        MESSAGING_DESTINATION_NAME@ == "messaging.destination.name"@,
{
}

} // verus!
