use vstd::prelude::*;

verus! {

/// Failure to derive a usable configuration from the parameter bag.
/// The only required parameter is the API key.
#[derive(Debug, PartialEq, Eq, Structural)]
pub enum ConfigError {
    MissingApiKey,
}

/// Failure while normalizing the image payload.
#[derive(Debug, PartialEq, Eq, Structural)]
pub enum ImageError {
    /// The base64 text or the raster data could not be decoded.
    Decode,
    /// Re-encoding the resized raster as a JPEG failed.
    Encode,
    /// No quality setting in the search range brought the image within budget.
    TooLarge,
}

/// Failure while extracting the answer from the service's response body.
#[derive(Debug)]
pub enum ResponseError {
    /// The body is not a well-formed document; carries the raw body for diagnostics.
    Parse(String),
    /// The body parses but the content path is absent or not a string.
    Shape,
}

/// Any failure on the way to a prepared request.
#[derive(Debug)]
pub enum PrepareError {
    Config(ConfigError),
    Image(ImageError),
}

impl ConfigError {
    pub fn message(&self) -> (r: String)
        ensures
            r@ == "apikey not found"@,
    {
        String::from_str("apikey not found")
    }
}

impl ImageError {
    pub fn message(&self) -> (r: String)
        ensures
            *self == ImageError::Decode ==> r@ == "image decode failed"@,
            *self == ImageError::Encode ==> r@ == "image encode failed"@,
            *self == ImageError::TooLarge ==> r@ == "Image is too large to compress within 1MB"@,
    {
        match self {
            ImageError::Decode => String::from_str("image decode failed"),
            ImageError::Encode => String::from_str("image encode failed"),
            ImageError::TooLarge => String::from_str("Image is too large to compress within 1MB"),
        }
    }
}

impl ResponseError {
    pub fn message(&self) -> (r: String)
        ensures
            r@ == "Response Parse Error"@,
    {
        String::from_str("Response Parse Error")
    }
}

} // verus!
