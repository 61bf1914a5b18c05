//! The cache in other formats, for programs that cannot read the cache
//! itself.

use vstd::prelude::*;
use crate::cache::{Cache, CacheEntry};
use crate::error::Error;
use crate::names::NameMap;
use crate::text::name_list;

pub mod shell;

pub use shell::ShellCacheGenerator;

verus! {

/// One format in which the cache can be written.
pub trait CacheGenerator {
    /// The name by which the format is switched on.
    spec fn format_name(&self) -> Seq<char>;

    /// The extension of the file that holds the format.
    spec fn format_extension(&self) -> Seq<char>;

    /// Whether the cache can be written in this format.
    spec fn generates(&self, entries: Map<Seq<char>, CacheEntry>) -> bool;

    /// The cache in this format.
    spec fn content(&self, entries: Map<Seq<char>, CacheEntry>) -> Seq<char>;

    fn name(&self) -> (name: &'static str)
        ensures
            name@ == self.format_name(),
    ;

    fn file_extension(&self) -> (extension: &'static str)
        ensures
            extension@ == self.format_extension(),
    ;

    fn generate_content(&self, cache: &Cache) -> (text: Result<String, Error>)
        requires
            cache.wf(),
        ensures
            text is Ok <==> self.generates(cache.cache@),
            text matches Ok(t) ==> t@ == self.content(cache.cache@),
    ;
}

/// The formats that can be written, each under its name. The generators of
/// one registry are of one type; a registry of several kinds of generator
/// takes a type that stands for all of them.
pub struct CacheGeneratorRegistry<G: CacheGenerator> {
    generators: NameMap<G>,
}

/// The cache in one format.
#[derive(Debug, Clone)]
pub struct Generated {
    pub format: String,
    /// The extension of the file that the content belongs in.
    pub extension: String,
    pub content: String,
}

impl CacheGeneratorRegistry<ShellCacheGenerator> {
    /// The registry of the formats that the library brings.
    pub fn new() -> (registry: Self)
        ensures
            registry.wf(),
            registry@ == Map::<Seq<char>, ShellCacheGenerator>::empty().insert(
                "shell"@,
                ShellCacheGenerator,
            ),
    {
        let mut registry = CacheGeneratorRegistry::empty();
        registry.register(ShellCacheGenerator);
        registry
    }
}

impl<G: CacheGenerator> View for CacheGeneratorRegistry<G> {
    type V = Map<Seq<char>, G>;

    /// The generators by the names under which they are registered.
    closed spec fn view(&self) -> Map<Seq<char>, G> {
        self.generators@
    }
}

impl<G: CacheGenerator> CacheGeneratorRegistry<G> {
    /// Every generator is registered under its own name.
    pub closed spec fn wf(&self) -> bool {
        &&& self.generators.wf()
        &&& forall|k: Seq<char>| #[trigger]
            self.generators@.contains_key(k) ==> self.generators@[k].format_name() == k
    }

    /// A registry without formats.
    pub fn empty() -> (registry: Self)
        ensures
            registry.wf(),
            registry@ == Map::<Seq<char>, G>::empty(),
    {
        CacheGeneratorRegistry { generators: NameMap::new() }
    }

    /// Registers `generator` under its name, in place of what was
    /// registered under that name.
    pub fn register(&mut self, generator: G)
        requires
            old(self).wf(),
        ensures
            final(self).wf(),
            final(self)@ == old(self)@.insert(generator.format_name(), generator),
    {
        let name = generator.name().to_string();
        self.generators.insert(name, generator);
    }

    /// The generator that is registered under `name`, if there is one.
    pub fn get(&self, name: &str) -> (generator: Option<&G>)
        requires
            self.wf(),
        ensures
            match generator {
                Some(g) => self@.contains_key(name@) && *g == self@[name@] && g.format_name()
                    == name@,
                None => !self@.contains_key(name@),
            },
    {
        self.generators.get(name)
    }

    /// The names of the formats that are registered, in the order in which
    /// they were first registered.
    pub fn available_generators(&self) -> (names: Vec<String>)
        requires
            self.wf(),
        ensures
            name_list(names@).no_duplicates(),
            forall|k: Seq<char>| #[trigger] name_list(names@).contains(k) <==> self@.contains_key(k),
    {
        proof {
            self.generators.lemma_keys_are_domain();
        }
        self.generators.names()
    }

    /// Whether `one` is the cache `entries` in the format that is
    /// registered under its name.
    pub open spec fn rendered(&self, entries: Map<Seq<char>, CacheEntry>, one: Generated) -> bool {
        &&& self@.contains_key(one.format@)
        &&& one.extension@ == self@[one.format@].format_extension()
        &&& one.content@ == self@[one.format@].content(entries)
    }

    /// Those of the first `n` of `formats` that are registered and can
    /// write `entries`, in order.
    pub open spec fn written_among(
        &self,
        entries: Map<Seq<char>, CacheEntry>,
        formats: Seq<Seq<char>>,
        n: int,
    ) -> Seq<Seq<char>>
        decreases n,
    {
        if n <= 0 {
            Seq::empty()
        } else if self@.contains_key(formats[n - 1]) && self@[formats[n - 1]].generates(entries) {
            self.written_among(entries, formats, n - 1).push(formats[n - 1])
        } else {
            self.written_among(entries, formats, n - 1)
        }
    }

    /// The cache in each of `enabled_formats` that is registered, in that
    /// order. A name that is not registered is passed over, and so is a
    /// format in which the cache cannot be written.
    pub fn generate_caches(&self, cache: &Cache, enabled_formats: &Vec<String>) -> (generated: Vec<
        Generated,
    >)
        requires
            self.wf(),
            cache.wf(),
        ensures
            generated@.len() == self.written_among(
                cache.cache@,
                name_list(enabled_formats@),
                enabled_formats@.len() as int,
            ).len(),
            forall|i: int|
                0 <= i < generated@.len() ==> (#[trigger] generated@[i]).format@
                    == self.written_among(
                    cache.cache@,
                    name_list(enabled_formats@),
                    enabled_formats@.len() as int,
                )[i] && self.rendered(cache.cache@, generated@[i]),
    {
        let mut generated: Vec<Generated> = Vec::new();
        let ghost formats = name_list(enabled_formats@);
        let mut i: usize = 0;
        while i < enabled_formats.len()
            invariant
                self.wf(),
                cache.wf(),
                i <= enabled_formats@.len(),
                formats == name_list(enabled_formats@),
                generated@.len() == self.written_among(cache.cache@, formats, i as int).len(),
                forall|j: int|
                    0 <= j < generated@.len() ==> (#[trigger] generated@[j]).format@
                        == self.written_among(cache.cache@, formats, i as int)[j] && self.rendered(
                        cache.cache@,
                        generated@[j],
                    ),
            decreases enabled_formats@.len() - i,
        {
            let format = &enabled_formats[i];
            match self.get(format.as_str()) {
                Some(generator) => match generator.generate_content(cache) {
                    Ok(content) => {
                        generated.push(
                            Generated {
                                format: format.clone(),
                                extension: generator.file_extension().to_string(),
                                content,
                            },
                        );
                    },
                    Err(_) => {},
                },
                None => {},
            }
            i += 1;
        }
        generated
    }
}

} // verus!
