use vstd::prelude::*;

verus! {

/// The HTTP method used to check links.
#[derive(Debug, Clone, Copy, PartialEq, Eq, Structural)]
pub enum HttpMethod {
    Get,
    Head,
}

/// The command line of the checker.
#[derive(Debug)]
pub struct Args {
    /// Sitemap.xml URL
    pub sitemap: String,
    /// Number of concurrent page crawlers
    pub workers: usize,
    /// Number of concurrent link checkers
    pub checkers: usize,
    /// CSV output file path
    pub output: String,
    /// Request timeout in seconds
    pub timeout: u64,
    /// User-Agent header for HTTP requests
    pub user_agent: String,
    /// Exclude patterns for links to skip checking
    pub exclude: Vec<String>,
    /// HTTP method to use for link checking
    pub method: HttpMethod,
}

} // verus!
