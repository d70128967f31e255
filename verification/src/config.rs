//! What an analysis run is asked to do: which file extensions to take, and
//! whether native elements take part.
use vstd::prelude::*;
use vstd::string::*;

verus! {

/// The run's configuration.
#[derive(Debug)]
pub struct AnalyzerConfig {
    pub target_extensions: Vec<String>,
    pub include_native_elements: bool,
    pub cache_enabled: bool,
}

impl Clone for AnalyzerConfig {
    fn clone(&self) -> (r: Self)
        ensures
            r.target_extensions.deep_view() == self.target_extensions.deep_view(),
            r.include_native_elements == self.include_native_elements,
            r.cache_enabled == self.cache_enabled,
    {
        let target_extensions = self.target_extensions.clone();
        proof {
            assert forall|i: int| 0 <= i < target_extensions.deep_view().len() implies
                target_extensions.deep_view()[i] == self.target_extensions.deep_view()[i] by {
                assert(cloned::<String>(self.target_extensions[i], target_extensions[i]));
            }
            assert(target_extensions.deep_view() =~= self.target_extensions.deep_view());
        }
        AnalyzerConfig {
            target_extensions,
            include_native_elements: self.include_native_elements,
            cache_enabled: self.cache_enabled,
        }
    }
}

impl Default for AnalyzerConfig {
    /// The default run: the four common extensions, native elements
    /// included, caching on.
    fn default() -> (r: Self)
        ensures
            r.target_extensions.deep_view() =~= seq!["tsx"@, "jsx"@, "ts"@, "js"@],
            r.include_native_elements,
            r.cache_enabled,
    {
        let mut target_extensions: Vec<String> = Vec::new();
        target_extensions.push("tsx".to_owned());
        target_extensions.push("jsx".to_owned());
        target_extensions.push("ts".to_owned());
        target_extensions.push("js".to_owned());
        proof {
            assert(target_extensions.deep_view() =~= seq!["tsx"@, "jsx"@, "ts"@, "js"@]);
        }
        AnalyzerConfig {
            target_extensions,
            include_native_elements: true,
            cache_enabled: true,
        }
    }
}

} // verus!
