//! The descriptor that identifies one node of a plugin's virtual folder tree.
use vstd::prelude::*;
use crate::encoding::{alnum_encoded, decode_input, encode_alnum, encode_input, escape_tag, escape_tag_spec, inputs_decoded, inputs_encoded};
use crate::text::join_spec;
use crate::user_config::uri_sections;
use crate::user_config::{copy_strings, UserConfig};

verus! {

/// How to reach one virtual folder of a plugin: its path, the answers to give when the
/// plugin asks for input (first answer first), and the preferences sent along.
#[derive(Clone, Debug, PartialEq, Eq, Hash)]
pub struct PathAccessData {
    pub path: String,
    pub input: Vec<String>,
    pub config: UserConfig,
}

impl PathAccessData {
    /// Same path, inputs and configuration.
    pub open spec fn same_as(&self, other: &PathAccessData) -> bool {
        &&& self.path@ == other.path@
        &&& self.input.deep_view() == other.input.deep_view()
        &&& self.config.same_as(&other.config)
    }

    /// A descriptor for `path`, with the inputs of the `:`-separated percent-encoded list
    /// `input` when there is one.
    pub fn new(path: String, input: Option<&str>, config: UserConfig) -> (r: Self)
        ensures
            r.path@ == path@,
            input is None ==> r.input.deep_view().len() == 0,
            input matches Some(i) ==> r.input.deep_view() == inputs_decoded(i@),
            r.config == config,
    {
        let decoded = match input {
            Some(i) => decode_input(i),
            None => Vec::new(),
        };
        PathAccessData { path, input: decoded, config }
    }

    /// [`PathAccessData::new`] when there is a path, else nothing.
    pub fn try_create_from_url(path: Option<String>, input: Option<&str>, config: UserConfig) -> (r: Option<Self>)
        ensures
            path is None <==> r is None,
            r matches Some(a) ==> {
                &&& a.path@ == path.unwrap()@
                &&& input is None ==> a.input.deep_view().len() == 0
                &&& input matches Some(i) ==> a.input.deep_view() == inputs_decoded(i@)
                &&& a.config == config
            },
    {
        match path {
            Some(p) => Some(Self::new(p, input, config)),
            None => None,
        }
    }

    /// A copy with the same path, inputs and configuration.
    pub fn duplicate(&self) -> (r: Self)
        ensures
            r.same_as(self),
    {
        PathAccessData {
            path: self.path.clone(),
            input: copy_strings(&self.input),
            config: self.config.duplicate(),
        }
    }
}

/// A descriptor written for a web page.
pub struct PathAccessFormat {
    /// The path, percent-encoded but for ASCII letters and digits.
    pub path_safe: String,
    /// The path, HTML-escaped.
    pub path_escaped: String,
    /// The inputs, encoded as a `:`-separated list.
    pub input_encoded: String,
    pub config: UserConfig,
    /// The configuration as a URI.
    pub config_uri_safe: String,
}

impl PathAccessFormat {
    /// The web forms of a descriptor.
    pub fn new_from_pathaccessdata(path_access_data: PathAccessData) -> (r: Self)
        ensures
            r.path_safe@ == alnum_encoded(path_access_data.path@),
            r.path_escaped@ == escape_tag_spec(path_access_data.path@),
            r.input_encoded@ == inputs_encoded(path_access_data.input.deep_view()),
            r.config_uri_safe@ == join_spec(uri_sections(path_access_data.config.to_dict_spec()), '!'),
            r.config == path_access_data.config,
    {
        let path_safe = encode_alnum(path_access_data.path.as_str());
        let input_encoded = encode_input(&path_access_data.input);
        let config_uri_safe = path_access_data.config.encode_to_uri();
        PathAccessFormat {
            path_safe,
            path_escaped: escape_tag(path_access_data.path),
            input_encoded,
            config: path_access_data.config,
            config_uri_safe,
        }
    }
}

} // verus!
