use vstd::prelude::*;

verus! {

/// Status code of a successful response.
pub const HTTP_OK: u16 = 200;

/// The version the service reports about itself.
pub open spec fn service_version_text() -> Seq<char> {
    "0.1.0"@
}

/// The version the service reports about itself.
pub fn service_version() -> (r: &'static str)
    ensures
        r@ == service_version_text(),
{
    "0.1.0"
}

/// Body of the health check.
#[derive(Debug)]
pub struct HealthResponse {
    pub status: &'static str,
    pub version: &'static str,
}

/// The health check: status 200, the service reported healthy, and its version.
pub fn health_check() -> (r: (u16, HealthResponse))
    ensures
        r.0 == HTTP_OK,
        r.1.status@ == "healthy"@,
        r.1.version@ == service_version_text(),
{
    (HTTP_OK, HealthResponse { status: "healthy", version: service_version() })
}

/// The firmware image served to devices.
pub open spec fn firmware_image() -> Seq<u8> {
    seq![1u8, 2u8, 3u8, 4u8]
}

/// The firmware image served to devices.
pub fn get_firmware_data() -> (r: Vec<u8>)
    ensures
        r@ == firmware_image(),
        r@.len() > 0,
{
    let r = vec![1u8, 2u8, 3u8, 4u8];
    assert(r@ =~= firmware_image());
    r
}

/// A firmware download: the image as an attachment of raw bytes.
#[derive(Debug)]
pub struct FirmwareResponse {
    pub status: u16,
    pub content_type: &'static str,
    pub content_disposition: &'static str,
    pub body: Vec<u8>,
}

/// The firmware download: status 200, an octet stream offered as the
/// attachment `firmware.bin`, with the firmware image as body.
pub fn firmware_download() -> (r: FirmwareResponse)
    ensures
        r.status == HTTP_OK,
        r.content_type@ == "application/octet-stream"@,
        r.content_disposition@ == "attachment; filename=\"firmware.bin\""@,
        r.body@ == firmware_image(),
        r.body@.len() > 0,
{
    FirmwareResponse {
        status: HTTP_OK,
        content_type: "application/octet-stream",
        content_disposition: "attachment; filename=\"firmware.bin\"",
        body: get_firmware_data(),
    }
}

/// The endpoints of the HTTP surface.
#[derive(Clone, Copy, Debug, PartialEq, Eq, Structural)]
pub enum Endpoint {
    Health,
    Firmware,
}

/// Path of each endpoint.
pub open spec fn endpoint_path(e: Endpoint) -> Seq<char> {
    match e {
        Endpoint::Health => "/health"@,
        Endpoint::Firmware => "/firmware"@,
    }
}

/// Documentation tag of each endpoint.
pub open spec fn endpoint_tag(e: Endpoint) -> Seq<char> {
    match e {
        Endpoint::Health => "health"@,
        Endpoint::Firmware => "firmware"@,
    }
}

impl Endpoint {
    pub fn path(&self) -> (r: &'static str)
        ensures
            r@ == endpoint_path(*self),
    {
        match self {
            Endpoint::Health => "/health",
            Endpoint::Firmware => "/firmware",
        }
    }

    pub fn tag(&self) -> (r: &'static str)
        ensures
            r@ == endpoint_tag(*self),
    {
        match self {
            Endpoint::Health => "health",
            Endpoint::Firmware => "firmware",
        }
    }

    /// Description of the endpoint's documentation tag.
    pub fn tag_description(&self) -> (r: &'static str)
        ensures
            r@ == match *self {
                Endpoint::Health => "Health check endpoints"@,
                Endpoint::Firmware => "Firmware update endpoints"@,
            },
    {
        match self {
            Endpoint::Health => "Health check endpoints",
            Endpoint::Firmware => "Firmware update endpoints",
        }
    }
}

/// The API description: which endpoints it documents and where it is served.
#[derive(Debug)]
pub struct ApiDoc;

impl ApiDoc {
    /// The documented endpoints, in order.
    pub fn endpoints() -> (r: Vec<Endpoint>)
        ensures
            r@ == seq![Endpoint::Health, Endpoint::Firmware],
    {
        let r = vec![Endpoint::Health, Endpoint::Firmware];
        assert(r@ =~= seq![Endpoint::Health, Endpoint::Firmware]);
        r
    }

    /// Path of the interactive documentation.
    pub fn docs_path() -> (r: &'static str)
        ensures
            r@ == "/docs"@,
    {
        "/docs"
    }

    /// Path of the machine-readable document.
    pub fn openapi_path() -> (r: &'static str)
        ensures
            r@ == "/api-docs/openapi.json"@,
    {
        "/api-docs/openapi.json"
    }
}

} // verus!
