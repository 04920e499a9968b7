use vstd::prelude::*;
use vstd::string::*;

verus! {

/// What to create for a local single-node cluster.
pub struct ContainerSpec {
    pub name: String,
    pub image: String,
    pub env: Vec<String>,
    pub port: String,
}

/// The container for a local cluster of the given version: the public image
/// of that version, run as a single node, port 9100 published.
pub fn container_spec(version: &str) -> (r: ContainerSpec)
    ensures
        r.name@ == "opensearch"@,
        r.image@ == "public.ecr.aws/opensearchproject/opensearch:"@ + version@,
        r.env@.len() == 1,
        r.env@[0]@ == "discovery.type=single-node"@,
        r.port@ == "9100:9100"@,
{
    let image = String::from_str("public.ecr.aws/opensearchproject/opensearch:").concat(version);
    let mut env: Vec<String> = Vec::new();
    env.push(String::from_str("discovery.type=single-node"));
    ContainerSpec { name: String::from_str("opensearch"), image, env, port: String::from_str("9100:9100") }
}

} // verus!
