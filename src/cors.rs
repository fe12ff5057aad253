use vstd::prelude::*;

verus! {

/// A header that cross-origin responses carry.
#[derive(Clone, Copy, Debug, PartialEq, Eq, Structural)]
pub enum CorsHeader {
    /// `Access-Control-Allow-Origin: *`
    AllowOrigin,
    /// `Access-Control-Allow-Methods: GET`
    AllowMethods,
    /// `Access-Control-Allow-Headers: *`
    AllowHeaders,
    /// `Access-Control-Max-Age: 86400`
    MaxAge,
    /// `Allow: OPTIONS, GET`
    Allow,
}

impl CorsHeader {
    /// The text of the header's name.
    pub open spec fn spec_name(self) -> Seq<char> {
        match self {
            CorsHeader::AllowOrigin => "Access-Control-Allow-Origin"@,
            CorsHeader::AllowMethods => "Access-Control-Allow-Methods"@,
            CorsHeader::AllowHeaders => "Access-Control-Allow-Headers"@,
            CorsHeader::MaxAge => "Access-Control-Max-Age"@,
            CorsHeader::Allow => "Allow"@,
        }
    }

    /// The text of the header's value.
    pub open spec fn spec_value(self) -> Seq<char> {
        match self {
            CorsHeader::AllowOrigin => "*"@,
            CorsHeader::AllowMethods => "GET"@,
            CorsHeader::AllowHeaders => "*"@,
            CorsHeader::MaxAge => "86400"@,
            CorsHeader::Allow => "OPTIONS, GET"@,
        }
    }

    /// The header's name.
    pub fn name(&self) -> (r: &'static str)
        ensures
            r@ == self.spec_name(),
    {
        match self {
            CorsHeader::AllowOrigin => "Access-Control-Allow-Origin",
            CorsHeader::AllowMethods => "Access-Control-Allow-Methods",
            CorsHeader::AllowHeaders => "Access-Control-Allow-Headers",
            CorsHeader::MaxAge => "Access-Control-Max-Age",
            CorsHeader::Allow => "Allow",
        }
    }

    /// The header's value.
    pub fn value(&self) -> (r: &'static str)
        ensures
            r@ == self.spec_value(),
    {
        match self {
            CorsHeader::AllowOrigin => "*",
            CorsHeader::AllowMethods => "GET",
            CorsHeader::AllowHeaders => "*",
            CorsHeader::MaxAge => "86400",
            CorsHeader::Allow => "OPTIONS, GET",
        }
    }
}

/// The status of a reply to a preflight request: No Content.
pub const PREFLIGHT_STATUS: u16 = 204;

/// The cross-origin policy: any origin may read, with GET only.
pub struct CORS;

impl CORS {
    /// The name under which the policy is installed.
    pub fn name(&self) -> (r: &'static str)
        ensures
            r@ == "CORS headers"@,
    {
        "CORS headers"
    }

    /// The headers added to every response.
    pub fn response_headers(&self) -> (r: Vec<CorsHeader>)
        ensures
            r@ == seq![CorsHeader::AllowOrigin, CorsHeader::AllowMethods, CorsHeader::AllowHeaders],
    {
        let mut v: Vec<CorsHeader> = Vec::new();
        v.push(CorsHeader::AllowOrigin);
        v.push(CorsHeader::AllowMethods);
        v.push(CorsHeader::AllowHeaders);
        v
    }

    /// The headers of the reply to a preflight request, whose status is
    /// `PREFLIGHT_STATUS`.
    pub fn preflight_headers(&self) -> (r: Vec<CorsHeader>)
        ensures
            r@ == seq![
                CorsHeader::AllowOrigin,
                CorsHeader::AllowMethods,
                CorsHeader::AllowHeaders,
                CorsHeader::MaxAge,
                CorsHeader::Allow,
            ],
    {
        let mut v = self.response_headers();
        v.push(CorsHeader::MaxAge);
        v.push(CorsHeader::Allow);
        v
    }
}

} // verus!
