use vstd::prelude::*;

verus! {

/// The deployment environment assumed when none is configured.
pub open spec fn default_environment() -> Seq<char> {
    "development"@
}

/// Service identity attached to every structured log event.
#[derive(Debug, Clone, PartialEq, Eq)]
pub struct LogResource {
    pub service_name: &'static str,
    pub service_version: &'static str,
    pub deployment_environment: String,
}

impl LogResource {
    /// The resource of a service, given the values of the two environment
    /// settings that may name its deployment: the first that is set wins,
    /// and with neither the environment is "development".
    pub fn resolve(
        service_name: &'static str,
        service_version: &'static str,
        deployment_environment: Option<String>,
        environment: Option<String>,
    ) -> (r: Self)
        ensures
            r.service_name == service_name,
            r.service_version == service_version,
            r.deployment_environment@ == match (deployment_environment, environment) {
                (Some(d), _) => d@,
                (None, Some(e)) => e@,
                (None, None) => default_environment(),
            },
    {
        let env = match deployment_environment {
            Some(d) => d,
            None => match environment {
                Some(e) => e,
                None => {
                    proof { reveal_strlit("development"); }
                    String::from_str("development")
                },
            },
        };
        LogResource { service_name, service_version, deployment_environment: env }
    }
}

} // verus!
