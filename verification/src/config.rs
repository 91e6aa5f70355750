//! The configuration record and the way its layers are merged.

use vstd::prelude::*;
use crate::download::opt_text;
use crate::path::{expand, is_tilde_expansion};

verus! {

/// Where the files of one category go, and by which extensions they are known.
#[derive(Debug)]
pub struct Category {
    pub extensions: Vec<String>,
    pub directory: String,
}

/// A category as a mathematical value.
pub struct CategoryView {
    pub extensions: Seq<Seq<char>>,
    pub directory: Seq<char>,
}

impl View for Category {
    type V = CategoryView;

    open spec fn view(&self) -> CategoryView {
        CategoryView {
            extensions: Seq::new(self.extensions@.len(), |i: int| self.extensions@[i]@),
            directory: self.directory@,
        }
    }
}

impl Clone for Category {
    fn clone(&self) -> (r: Category)
        ensures
            r@ == self@,
    {
        let mut extensions: Vec<String> = Vec::new();
        let mut i: usize = 0;
        while i < self.extensions.len()
            invariant
                i <= self.extensions.len(),
                extensions.len() == i,
                forall|k: int| 0 <= k < i ==> extensions@[k]@ == self.extensions@[k]@,
            decreases self.extensions.len() - i,
        {
            extensions.push(self.extensions[i].clone());
            i = i + 1;
        }
        let r = Category { extensions, directory: self.directory.clone() };
        assert(r@.extensions =~= self@.extensions);
        r
    }
}

/// A category under its name.
#[derive(Debug)]
pub struct NamedCategory {
    pub name: String,
    pub category: Category,
}

/// A named category as a mathematical value.
pub struct NamedCategoryView {
    pub name: Seq<char>,
    pub category: CategoryView,
}

impl View for NamedCategory {
    type V = NamedCategoryView;

    open spec fn view(&self) -> NamedCategoryView {
        NamedCategoryView { name: self.name@, category: self.category@ }
    }
}

impl Clone for NamedCategory {
    fn clone(&self) -> (r: NamedCategory)
        ensures
            r@ == self@,
    {
        NamedCategory { name: self.name.clone(), category: self.category.clone() }
    }
}

/// The categories of a sequence of named categories, as mathematical values.
pub open spec fn category_views(v: Seq<NamedCategory>) -> Seq<NamedCategoryView> {
    Seq::new(v.len(), |i: int| v[i]@)
}

/// No two of the categories have the same name.
pub open spec fn names_distinct(categories: Seq<NamedCategoryView>) -> bool {
    forall|i: int, j: int|
        0 <= i < j < categories.len() ==> (#[trigger] categories[i]).name
            != (#[trigger] categories[j]).name
}

/// A copy of a list of named categories.
pub fn clone_categories(v: &Vec<NamedCategory>) -> (r: Vec<NamedCategory>)
    ensures
        category_views(r@) == category_views(v@),
{
    let mut r: Vec<NamedCategory> = Vec::new();
    let mut i: usize = 0;
    while i < v.len()
        invariant
            i <= v.len(),
            r.len() == i,
            forall|k: int| 0 <= k < i ==> r@[k]@ == v@[k]@,
        decreases v.len() - i,
    {
        r.push(v[i].clone());
        i = i + 1;
    }
    assert(category_views(r@) =~= category_views(v@));
    r
}

/// The resolved configuration that the engine works with. The categories are
/// kept as a list; in a well-formed configuration no name occurs twice in it.
#[derive(Debug)]
pub struct Config {
    pub default_directory: String,
    pub temp_directory: String,
    pub user_agent: String,
    pub categories: Vec<NamedCategory>,
    pub max_sim_downloads: u16,
}

/// A configuration as a mathematical value.
pub struct ConfigView {
    pub default_directory: Seq<char>,
    pub temp_directory: Seq<char>,
    pub user_agent: Seq<char>,
    pub categories: Seq<NamedCategoryView>,
    pub max_sim_downloads: u16,
}

impl ConfigView {
    /// No two categories of the configuration have the same name.
    pub open spec fn wf(self) -> bool {
        names_distinct(self.categories)
    }
}

impl View for Config {
    type V = ConfigView;

    open spec fn view(&self) -> ConfigView {
        ConfigView {
            default_directory: self.default_directory@,
            temp_directory: self.temp_directory@,
            user_agent: self.user_agent@,
            categories: category_views(self.categories@),
            max_sim_downloads: self.max_sim_downloads,
        }
    }
}

impl Clone for Config {
    fn clone(&self) -> (r: Config)
        ensures
            r@ == self@,
    {
        Config {
            default_directory: self.default_directory.clone(),
            temp_directory: self.temp_directory.clone(),
            user_agent: self.user_agent.clone(),
            categories: clone_categories(&self.categories),
            max_sim_downloads: self.max_sim_downloads,
        }
    }
}

/// One layer of configuration: for each field, a new value or nothing.
#[derive(Debug)]
pub struct ConfigPatch {
    pub default_directory: Option<String>,
    pub temp_directory: Option<String>,
    pub user_agent: Option<String>,
    pub categories: Option<Vec<NamedCategory>>,
    pub max_sim_downloads: Option<u16>,
}

/// A layer as a mathematical value.
pub struct ConfigPatchView {
    pub default_directory: Option<Seq<char>>,
    pub temp_directory: Option<Seq<char>>,
    pub user_agent: Option<Seq<char>>,
    pub categories: Option<Seq<NamedCategoryView>>,
    pub max_sim_downloads: Option<u16>,
}

impl ConfigPatchView {
    /// No two categories of the layer have the same name.
    pub open spec fn wf(self) -> bool {
        match self.categories {
            Some(c) => names_distinct(c),
            None => true,
        }
    }
}

/// An optional layer is well formed where it is there.
pub open spec fn opt_patch_wf(layer: Option<ConfigPatchView>) -> bool {
    match layer {
        Some(p) => p.wf(),
        None => true,
    }
}

impl View for ConfigPatch {
    type V = ConfigPatchView;

    open spec fn view(&self) -> ConfigPatchView {
        ConfigPatchView {
            default_directory: opt_text(self.default_directory),
            temp_directory: opt_text(self.temp_directory),
            user_agent: opt_text(self.user_agent),
            categories: match self.categories {
                Some(c) => Some(category_views(c@)),
                None => None,
            },
            max_sim_downloads: self.max_sim_downloads,
        }
    }
}

/// The new value where the layer has one, else the old one.
pub open spec fn patched_value<T>(old_value: T, new_value: Option<T>) -> T {
    match new_value {
        Some(v) => v,
        None => old_value,
    }
}

/// `config` with every field that `patch` holds replaced by the value of `patch`.
pub open spec fn patched(config: ConfigView, patch: ConfigPatchView) -> ConfigView {
    ConfigView {
        default_directory: patched_value(config.default_directory, patch.default_directory),
        temp_directory: patched_value(config.temp_directory, patch.temp_directory),
        user_agent: patched_value(config.user_agent, patch.user_agent),
        categories: patched_value(config.categories, patch.categories),
        max_sim_downloads: patched_value(config.max_sim_downloads, patch.max_sim_downloads),
    }
}

/// `config` under an optional layer.
pub open spec fn layered(config: ConfigView, layer: Option<ConfigPatchView>) -> ConfigView {
    match layer {
        Some(p) => patched(config, p),
        None => config,
    }
}

/// The view of an optional layer.
pub open spec fn opt_patch(layer: Option<ConfigPatch>) -> Option<ConfigPatchView> {
    match layer {
        Some(p) => Some(p@),
        None => None,
    }
}

/// What holds of a configuration after its two directories went through
/// tilde expansion: nothing else has changed.
pub open spec fn is_processed(before: ConfigView, after: ConfigView) -> bool {
    &&& is_tilde_expansion(before.default_directory, after.default_directory)
    &&& is_tilde_expansion(before.temp_directory, after.temp_directory)
    &&& after.user_agent == before.user_agent
    &&& after.categories == before.categories
    &&& after.max_sim_downloads == before.max_sim_downloads
}

impl Config {
    /// Lays `patch` over this configuration, field by field.
    pub fn update_from_map(&mut self, patch: &ConfigPatch)
        ensures
            final(self)@ == patched(old(self)@, patch@),
            old(self)@.wf() && patch@.wf() ==> final(self)@.wf(),
    {
        if let Some(v) = &patch.default_directory {
            self.default_directory = v.clone();
        }
        if let Some(v) = &patch.temp_directory {
            self.temp_directory = v.clone();
        }
        if let Some(v) = &patch.user_agent {
            self.user_agent = v.clone();
        }
        if let Some(v) = &patch.categories {
            self.categories = clone_categories(v);
        }
        if let Some(v) = patch.max_sim_downloads {
            self.max_sim_downloads = v;
        }
    }
}

/// Expands the two directories of `config`: each is left as it is unless it
/// names the home directory, and nothing else of the configuration changes.
pub fn process_config(config: Config) -> (r: Config)
    ensures
        is_processed(config@, r@),
        config@.wf() ==> r@.wf(),
{
    let mut config = config;
    config.default_directory = expand(config.default_directory.as_str());
    config.temp_directory = expand(config.temp_directory.as_str());
    config
}

/// The configuration in force: the packaged defaults, under the system-wide
/// layer, under the layer of the user, with its directories expanded.
pub fn get_config(defaults: Config, system: &Option<ConfigPatch>, user: &Option<ConfigPatch>) -> (r:
    Config)
    ensures
        is_processed(layered(layered(defaults@, opt_patch(*system)), opt_patch(*user)), r@),
        defaults@.wf() && opt_patch_wf(opt_patch(*system)) && opt_patch_wf(opt_patch(*user))
            ==> r@.wf(),
{
    let mut config = defaults;
    if let Some(p) = system {
        config.update_from_map(p);
    }
    if let Some(p) = user {
        config.update_from_map(p);
    }
    process_config(config)
}

/// The default output directory of `config`, expanded.
pub fn get_default_directory(config: &Config) -> (r: String)
    ensures
        is_tilde_expansion(config@.default_directory, r@),
{
    expand(config.default_directory.as_str())
}

/// The categories of `config`.
pub fn get_categories(config: &Config) -> (r: Vec<NamedCategory>)
    ensures
        category_views(r@) == config@.categories,
{
    clone_categories(&config.categories)
}

/// A later layer wins: of two layers laid one over the other, each field has
/// the value of the second where the second holds one, else that of the first
/// where the first holds one, else the value it had.
pub proof fn lemma_later_layer_wins(config: ConfigView, first: ConfigPatchView, second: ConfigPatchView)
    ensures
        patched(patched(config, first), second).default_directory == patched_value(
            patched_value(config.default_directory, first.default_directory),
            second.default_directory,
        ),
        second.user_agent is Some ==> patched(patched(config, first), second).user_agent
            == second.user_agent->0,
        second.max_sim_downloads is None && first.max_sim_downloads is Some ==> patched(
            patched(config, first),
            second,
        ).max_sim_downloads == first.max_sim_downloads->0,
        patched(
            config,
            ConfigPatchView {
                default_directory: None,
                temp_directory: None,
                user_agent: None,
                categories: None,
                max_sim_downloads: None,
            },
        ) == config,
{
}

} // verus!
