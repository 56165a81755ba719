use vstd::prelude::*;

use crate::errors::ConfigError;
use crate::errors::ImageError;
use crate::errors::PrepareError;
use crate::normalize::b64_decode_of;
use crate::normalize::normalize_image;
use crate::normalize::TRANSFER_BUDGET_BYTES;
use crate::params::resolve_config;
use crate::params::spec_endpoint;
use crate::params::spec_model;
use crate::params::spec_prompt;
use crate::params::spec_stream;
use crate::params::spec_timeout;
use crate::params::ParamBag;
use crate::request::build_request_body;
use crate::request::spec_request_body;

verus! {

/// Everything the transport needs for the single POST: where to send it,
/// the authorization header value, the bound on waiting, and the body.
#[derive(Debug)]
pub struct PreparedRequest {
    pub endpoint: String,
    pub auth_header: String,
    pub timeout_secs: u64,
    pub body: String,
}

/// Resolves the configuration, normalizes the image, and assembles the
/// outbound document. A missing API key fails before any image work, and
/// no transport is touched here.
pub fn prepare_request(image_b64: &String, lang: &str, bag: &ParamBag) -> (r: Result<
    PreparedRequest,
    PrepareError,
>)
    requires
        bag.wf(),
    ensures
        !bag.contains_key("apikey"@) <==> (r matches Err(e) && (e matches PrepareError::Config(c)
            && c == ConfigError::MissingApiKey)),
        (bag.contains_key("apikey"@) && b64_decode_of(image_b64@) is None) ==> (r matches Err(e)
            && (e matches PrepareError::Image(ie) && ie == ImageError::Decode)),
        (bag.contains_key("apikey"@) && (b64_decode_of(image_b64@) matches Some(raw) && raw.len()
            <= TRANSFER_BUDGET_BYTES)) ==> (r matches Ok(p) && p.body@ == spec_request_body(
            spec_prompt(*bag, lang@),
            spec_model(*bag),
            image_b64@,
            spec_stream(*bag),
        )),
        r matches Ok(p) ==> ({
            &&& bag.contains_key("apikey"@)
            &&& p.endpoint@ == spec_endpoint(*bag)
            &&& p.auth_header@ == "Bearer "@ + bag.value_of("apikey"@)
            &&& p.timeout_secs == spec_timeout(*bag)
            &&& exists|img: Seq<char>|
                p.body@ == #[trigger] spec_request_body(
                    spec_prompt(*bag, lang@),
                    spec_model(*bag),
                    img,
                    spec_stream(*bag),
                ) && (b64_decode_of(img) matches Some(b) && b.len() <= TRANSFER_BUDGET_BYTES)
        }),
{
    let config = match resolve_config(bag, lang) {
        Ok(c) => c,
        Err(e) => {
            return Err(PrepareError::Config(e));
        },
    };
    let norm = match normalize_image(image_b64) {
        Ok(s) => s,
        Err(e) => {
            return Err(PrepareError::Image(e));
        },
    };
    let body = build_request_body(&config, &norm);
    let mut auth = String::from_str("Bearer ");
    auth.append(config.api_key.as_str());
    let res = PreparedRequest {
        endpoint: config.endpoint,
        auth_header: auth,
        timeout_secs: config.timeout_secs,
        body,
    };
    proof {
        let img = norm@;
        assert(res.body@ == spec_request_body(
            spec_prompt(*bag, lang@),
            spec_model(*bag),
            img,
            spec_stream(*bag),
        ) && (b64_decode_of(img) matches Some(b) && b.len() <= TRANSFER_BUDGET_BYTES));
    }
    Ok(res)
}

} // verus!
