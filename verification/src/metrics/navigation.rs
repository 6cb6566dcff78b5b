use vstd::prelude::*;

verus! {

/// How long the steps of loading the game took, as the client measured them.
#[derive(Clone, Debug, PartialEq, Eq, Structural)]
pub struct NavigationMetricsDto {
    /// The DNS query.
    pub dns: u16,
    /// Setting up TCP, without TLS.
    pub tcp: u16,
    /// Setting up TLS.
    pub tls: u16,
    /// The HTTP request and its response.
    pub http: u16,
    /// Loading the DOM after the response.
    pub dom: u16,
}

impl Default for NavigationMetricsDto {
    fn default() -> (r: Self)
        ensures
            r == (NavigationMetricsDto { dns: 0, tcp: 0, tls: 0, http: 0, dom: 0 }),
    {
        NavigationMetricsDto { dns: 0, tcp: 0, tls: 0, http: 0, dom: 0 }
    }
}

} // verus!
