//! The two steps of an install, as text goes in and manifests come out: labelling what a
//! package rendered, and reading the labelled manifests that are to be applied.

use crate::installation::{
    all_labelled, identity_labels, resource_texts, text_resources, InstallResources, ManifestError,
    ManifestFault,
};
use crate::text::joined;
use crate::yaml::Node;
use vstd::prelude::*;

verus! {

/// The stream of YAML documents with the labels of the first version of an install on each
/// resource, or the fault that stops the labelling.
pub open spec fn labelled_stream(name: Seq<char>, yaml: Seq<char>) -> Result<
    Seq<char>,
    ManifestFault,
> {
    match text_resources(yaml) {
        Err(f) => Err(f),
        Ok(resources) => match all_labelled(resources, identity_labels(name, 0)) {
            Err(f) => Err(f),
            Ok(labelled) => match resource_texts(labelled) {
                None => Err(ManifestFault::Emit),
                Some(texts) => Ok(joined(texts, "\n---\n"@)),
            },
        },
    }
}

/// Ties every resource of a stream of YAML documents to the install of the given name: each
/// document must be a mapping, or a sequence of mappings; each resource gets the name label
/// and the label of the first version under `metadata.labels`, which is made where it is
/// missing. The resources are written back with a line of three dashes between them.
pub fn set_install_label(install_name: &str, input_yaml: &str) -> (r: Result<String, ManifestError>)
    ensures
        match r {
            Ok(text) => labelled_stream(install_name@, input_yaml@) == Ok::<_, ManifestFault>(
                text@,
            ),
            Err(e) => labelled_stream(install_name@, input_yaml@) == Err::<Seq<char>, _>(
                e.fault(),
            ),
        },
{
    let resources = match InstallResources::from_str(input_yaml) {
        Err(e) => { return Err(e); },
        Ok(resources) => resources,
    };
    let labelled = match resources.label_resources_with(install_name, 0) {
        Err(e) => { return Err(e); },
        Ok(labelled) => labelled,
    };
    labelled.to_string()
}

/// Reads the manifests that are to be applied, in the order in which they are applied.
/// Applying them is planned by [`crate::installation::InstallRef::apply_resources`].
pub fn install(processed_yaml: &str) -> (r: Result<InstallResources, ManifestError>)
    ensures
        match r {
            Ok(res) => text_resources(processed_yaml@) == Ok::<_, ManifestFault>(res@),
            Err(e) => text_resources(processed_yaml@) == Err::<Seq<Seq<(Node, Node)>>, _>(
                e.fault(),
            ),
        },
{
    InstallResources::from_str(processed_yaml)
}

} // verus!
