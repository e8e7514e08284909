//! Decisions around the DigitalOcean collaborators: reading the cluster
//! listing fetched from the cloud API, resolving a cluster name to its
//! identifier, and computing the storage coordinates of a cluster's
//! generated configuration file.
//!
//! The HTTP request and the JSON decoding themselves happen outside this
//! crate; what arrives here is the plain outcome of each step, and every
//! decision taken on it is verified.

use vstd::prelude::*;

use crate::error::{SimpleError, SimpleErrorKind};

verus! {

/// One cluster as the API lists it: an identifier and a display name.
#[derive(Debug)]
pub struct Cluster {
    pub id: String,
    pub name: String,
}

/// The cluster listing returned by the API.
#[derive(Debug)]
pub struct Clusters {
    pub kubernetes_clusters: Vec<Cluster>,
}

/// The outcome of the HTTP request for the cluster listing, as handed in
/// by whoever performed it: no response at all, or a response with its
/// status code and body text.
#[derive(Debug)]
pub enum ApiResponse {
    NoResponse,
    Response(u16, String),
}

/// The message carried when the API sent no response.
pub open spec fn no_response_message() -> Seq<char> {
    "Unable to get any responses from Digital Ocean"@
}

/// The message carried when the API answered with an unexpected status.
pub open spec fn weird_status_message() -> Seq<char> {
    "Receive weird status Code from Digital Ocean while retrieving the cluster list"@
}

/// The message carried when the listing body could not be decoded.
pub open spec fn deserialize_message() -> Seq<char> {
    "While trying to deserialize json received from Digital Ocean API"@
}

/// The message carried when no listed cluster bears the requested name.
pub open spec fn no_match_message() -> Seq<char> {
    "Unable to retrieve cluster id from this name"@
}

/// Accept the cluster-listing response only with a success status: give
/// back the body to be decoded on a 200, a typed error otherwise.
pub fn cluster_response_body(res: ApiResponse) -> (r: Result<String, SimpleError>)
    ensures
        match res {
            ApiResponse::NoResponse => r matches Err(e) && e.is_error(
                SimpleErrorKind::Other,
                no_response_message(),
            ),
            ApiResponse::Response(status, body) => if status == 200 {
                r matches Ok(b) && b@ == body@
            } else {
                r matches Err(e) && e.is_error(SimpleErrorKind::Other, weird_status_message())
            },
        },
{
    match res {
        ApiResponse::NoResponse => Err(
            SimpleError::new(
                SimpleErrorKind::Other,
                Some("Unable to get any responses from Digital Ocean"),
            ),
        ),
        ApiResponse::Response(status, body) => {
            if status == 200 {
                Ok(body)
            } else {
                Err(
                    SimpleError::new(
                        SimpleErrorKind::Other,
                        Some(
                            "Receive weird status Code from Digital Ocean while retrieving the cluster list",
                        ),
                    ),
                )
            }
        },
    }
}

/// Find the identifier of the first listed cluster whose name equals
/// `kube_name` exactly; nothing when no listed name matches.
pub fn search_uuid_cluster_for(kube_name: &str, clusters: Clusters) -> (r: Option<String>)
    ensures
        match r {
            Some(id) => exists|i: int|
                0 <= i < clusters.kubernetes_clusters@.len()
                    && #[trigger] clusters.kubernetes_clusters@[i].name@ == kube_name@ && id@
                    == clusters.kubernetes_clusters@[i].id@ && (forall|j: int|
                    0 <= j < i ==> #[trigger] clusters.kubernetes_clusters@[j].name@ != kube_name@),
            None => forall|i: int|
                0 <= i < clusters.kubernetes_clusters@.len()
                    ==> #[trigger] clusters.kubernetes_clusters@[i].name@ != kube_name@,
        },
{
    let target: String = kube_name.to_owned();
    let mut i: usize = 0;
    while i < clusters.kubernetes_clusters.len()
        invariant
            i <= clusters.kubernetes_clusters@.len(),
            target@ == kube_name@,
            forall|j: int|
                0 <= j < i ==> #[trigger] clusters.kubernetes_clusters@[j].name@ != kube_name@,
        decreases clusters.kubernetes_clusters@.len() - i,
    {
        if clusters.kubernetes_clusters[i].name == target {
            return Some(clusters.kubernetes_clusters[i].id.clone());
        }
        i += 1;
    }
    None
}

/// Resolve a cluster name against the decoded listing: hand through the
/// decode failure as a typed error, give the first matching cluster's
/// identifier — never one whose name differs — and report a typed
/// no-match error when no listed name equals the requested one.
pub fn uuid_for_cluster_name(kube_name: &str, decoded: Option<Clusters>) -> (r: Result<
    String,
    SimpleError,
>)
    ensures
        match decoded {
            None => r matches Err(e) && e.is_error(SimpleErrorKind::Other, deserialize_message()),
            Some(cs) => match r {
                Ok(id) => exists|i: int|
                    0 <= i < cs.kubernetes_clusters@.len()
                        && #[trigger] cs.kubernetes_clusters@[i].name@ == kube_name@ && id@
                        == cs.kubernetes_clusters@[i].id@ && (forall|j: int|
                        0 <= j < i ==> #[trigger] cs.kubernetes_clusters@[j].name@ != kube_name@),
                Err(e) => e.is_error(SimpleErrorKind::Other, no_match_message()) && forall|i: int|
                    0 <= i < cs.kubernetes_clusters@.len()
                        ==> #[trigger] cs.kubernetes_clusters@[i].name@ != kube_name@,
            },
        },
{
    match decoded {
        None => Err(
            SimpleError::new(
                SimpleErrorKind::Other,
                Some("While trying to deserialize json received from Digital Ocean API"),
            ),
        ),
        Some(cs) => match search_uuid_cluster_for(kube_name, cs) {
            Some(id) => Ok(id),
            None => Err(
                SimpleError::new(
                    SimpleErrorKind::Other,
                    Some("Unable to retrieve cluster id from this name"),
                ),
            ),
        },
    }
}

/// The object-storage bucket that holds a cluster's generated
/// configuration file.
pub fn kubernetes_config_bucket_name(kubernetes_cluster_id: &str) -> (r: String)
    ensures
        r@ == "qovery-kubeconfigs-"@ + kubernetes_cluster_id@,
{
    let mut s = String::from_str("qovery-kubeconfigs-");
    s.append(kubernetes_cluster_id);
    s
}

/// The object key of a cluster's generated configuration file inside its
/// bucket.
pub fn kubernetes_config_object_key(kubernetes_cluster_id: &str) -> (r: String)
    ensures
        r@ == kubernetes_cluster_id@ + ".yaml"@,
{
    let mut s = String::from_str(kubernetes_cluster_id);
    s.append(".yaml");
    s
}

/// The local path, under a workspace directory, at which a cluster's
/// fetched configuration file is persisted.
pub fn kubernetes_config_file_path(workspace_directory: &str, kubernetes_cluster_id: &str) -> (r:
    String)
    ensures
        r@ == workspace_directory@ + "/kubernetes_config_"@ + kubernetes_cluster_id@,
{
    let mut s = String::from_str(workspace_directory);
    s.append("/kubernetes_config_");
    s.append(kubernetes_cluster_id);
    s
}

} // verus!
