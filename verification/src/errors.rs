use vstd::prelude::*;

verus! {

#[verifier::external_type_specification]
#[verifier::external_body]
pub struct ExHttpError(reqwest::Error);

#[verifier::external_type_specification]
#[verifier::external_body]
pub struct ExXmlError(quick_xml::Error);

#[verifier::external_type_specification]
#[verifier::external_body]
pub struct ExCsvError(csv::Error);

#[verifier::external_type_specification]
#[verifier::external_body]
pub struct ExIoError(std::io::Error);

/// Everything that can go wrong in a crawl.
#[derive(Debug)]
pub enum YagamiError {
    HttpError(reqwest::Error),
    XmlError(quick_xml::Error),
    UrlError(url::ParseError),
    CsvError(csv::Error),
    IoError(std::io::Error),
    InvalidSitemap(String),
}

} // verus!
