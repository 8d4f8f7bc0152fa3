//! The list of supported games.
//!
//! A game is described in a JSON file that leaves out what can be derived:
//! the slug from the name, the directory name from the slug, the name on
//! Steam from the name. This module fills the gaps and answers questions
//! about the finished list.

use vstd::prelude::*;
use crate::text::str_eq;

verus! {

/// The kebab-case form of a text as `heck` writes it: the words of the text
/// in lower case, joined by hyphens.
pub uninterp spec fn kebab_case(text: Seq<char>) -> Seq<char>;

/// The PascalCase form of a text as `heck` writes it: the words of the text,
/// each with a capital first letter, joined without a separator.
pub uninterp spec fn pascal_case(text: Seq<char>) -> Seq<char>;

/// Trusted: `heck::ToKebabCase::to_kebab_case` on a string slice. The result
/// depends on the text alone and is named `kebab_case`.
#[verifier::external_body]
fn to_kebab_case(text: &str) -> (converted: String)
    ensures
        converted@ == kebab_case(text@),
{
    heck::ToKebabCase::to_kebab_case(text)
}

/// Trusted: `heck::ToPascalCase::to_pascal_case` on a string slice. The
/// result depends on the text alone and is named `pascal_case`.
#[verifier::external_body]
fn to_pascal_case(text: &str) -> (converted: String)
    ensures
        converted@ == pascal_case(text@),
{
    heck::ToPascalCase::to_pascal_case(text)
}

/// The value of a flag that is on unless the file says otherwise.
pub fn default_true() -> (flag: bool)
    ensures
        flag,
{
    true
}

/// The value of a flag that is off unless the file says otherwise.
pub fn default_false() -> (flag: bool)
    ensures
        !flag,
{
    false
}

/// The mod loader that a game's mods are written for.
#[derive(Debug, PartialEq, Eq, Clone)]
pub enum ModLoader {
    /// BepInEx, the loader for games made with Unity.
    BepInEx,
}

/// A directory of a mod package and where its files go in a profile.
#[derive(Debug, Clone, PartialEq, Eq)]
pub struct Subdir<'a> {
    name: &'a str,
    target: &'a str,
    /// Whether to separate mods into `author-name` dirs.
    separate_mods: bool,
    mutable: bool,
}

/// A subdirectory as contracts see it.
pub struct SubdirView {
    /// The name of the directory inside a package.
    pub name: Seq<char>,
    /// The path inside a profile that its files go to.
    pub target: Seq<char>,
    /// Each mod gets a directory of its own below the target.
    pub separate_mods: bool,
    /// The files may change while the game runs.
    pub mutable: bool,
}

impl<'a> View for Subdir<'a> {
    type V = SubdirView;

    closed spec fn view(&self) -> SubdirView {
        SubdirView {
            name: self.name@,
            target: self.target@,
            separate_mods: self.separate_mods,
            mutable: self.mutable,
        }
    }
}

/// The subdirectory with the given name and target and the usual flags:
/// mods apart, files fixed.
pub open spec fn plain_subdir(name: Seq<char>, target: Seq<char>) -> SubdirView {
    SubdirView { name, target, separate_mods: true, mutable: false }
}

impl<'a> Subdir<'a> {
    /// The subdirectory with the given name and target: each mod gets a
    /// directory of its own, and the files are fixed.
    pub fn new(name: &'a str, target: &'a str) -> (subdir: Self)
        ensures
            subdir@ == plain_subdir(name@, target@),
    {
        Self { name, target, separate_mods: true, mutable: false }
    }

    /// The same subdirectory, with the files of all mods side by side.
    pub fn dont_separate_mods(self) -> (subdir: Self)
        ensures
            subdir@ == (SubdirView { separate_mods: false, ..self@ }),
    {
        Self { separate_mods: false, ..self }
    }

    /// The same subdirectory, with files that may change while the game runs.
    pub fn mutable(self) -> (subdir: Self)
        ensures
            subdir@ == (SubdirView { mutable: true, ..self@ }),
    {
        Self { mutable: true, ..self }
    }

    /// The name of the directory inside a package.
    pub fn name(&self) -> (name: &'a str)
        ensures
            name@ == self@.name,
    {
        self.name
    }

    /// The path inside a profile that the files go to.
    pub fn target(&self) -> (target: &'a str)
        ensures
            target@ == self@.target,
    {
        self.target
    }

    /// Whether each mod gets a directory of its own below the target.
    pub fn separate_mods(&self) -> (flag: bool)
        ensures
            flag == self@.separate_mods,
    {
        self.separate_mods
    }

    /// Whether the files may change while the game runs.
    pub fn is_mutable(&self) -> (flag: bool)
        ensures
            flag == self@.mutable,
    {
        self.mutable
    }

    fn duplicate(&self) -> (subdir: Subdir<'a>)
        ensures
            subdir@ == self@,
    {
        Subdir {
            name: self.name,
            target: self.target,
            separate_mods: self.separate_mods,
            mutable: self.mutable,
        }
    }
}

/// The views of a list of subdirectories.
pub open spec fn subdir_views(subdirs: Seq<Subdir<'_>>) -> Seq<SubdirView> {
    subdirs.map_values(|subdir: Subdir| subdir@)
}

/// The subdirectories that every BepInEx package may have.
pub open spec fn bepinex_subdirs() -> Seq<SubdirView> {
    seq![
        plain_subdir("plugins"@, "BepInEx/plugins"@),
        plain_subdir("patchers"@, "BepInEx/patchers"@),
        plain_subdir("monomod"@, "BepInEx/monomod"@),
        plain_subdir("core"@, "BepInEx/core"@),
        SubdirView {
            name: "config"@,
            target: "BepInEx/config"@,
            separate_mods: false,
            mutable: true,
        },
    ]
}

impl ModLoader {
    /// The subdirectory for files that a package keeps outside any of the
    /// known ones.
    pub fn default_subdir(&self) -> (subdir: Subdir<'static>)
        ensures
            subdir@ == plain_subdir("plugins"@, "BepInEx/plugins"@),
    {
        match self {
            ModLoader::BepInEx => Subdir::new("plugins", "BepInEx/plugins"),
        }
    }

    /// The subdirectories that a package for this loader may have.
    pub fn subdirs(&self) -> (subdirs: Vec<Subdir<'static>>)
        ensures
            subdir_views(subdirs@) == bepinex_subdirs(),
    {
        match self {
            ModLoader::BepInEx => {
                let mut subdirs: Vec<Subdir<'static>> = Vec::new();
                subdirs.push(Subdir::new("plugins", "BepInEx/plugins"));
                subdirs.push(Subdir::new("patchers", "BepInEx/patchers"));
                subdirs.push(Subdir::new("monomod", "BepInEx/monomod"));
                subdirs.push(Subdir::new("core", "BepInEx/core"));
                subdirs.push(Subdir::new("config", "BepInEx/config").dont_separate_mods().mutable());
                subdirs
            },
        }
    }

    fn duplicate(&self) -> (loader: ModLoader)
        ensures
            loader == *self,
    {
        match self {
            ModLoader::BepInEx => ModLoader::BepInEx,
        }
    }
}

/// How a game is known on Steam, as the file has it.
#[derive(Debug)]
pub enum Steam<'a> {
    /// The identifier alone: the game's directory has the game's name.
    Concise(u32),
    /// The identifier and the name of the game's directory.
    Full { id: u32, dir_name: &'a str },
}

/// The platforms of a game, as the file has them.
#[derive(Debug)]
pub struct Platforms<'a> {
    /// The game on Steam.
    pub steam: Steam<'a>,
}

/// A game as the file describes it.
#[derive(Debug)]
pub struct JsonGame<'a> {
    /// The name of the game as it is shown.
    pub name: &'a str,
    /// The slug, where it is not the name in kebab case.
    pub slug: Option<&'a str>,
    /// Whether the game is shown among the popular ones.
    pub popular: bool,
    /// The mod loader that the game's mods are written for.
    pub mod_loader: ModLoader,
    /// The directory name, where it is not the slug in Pascal case.
    pub r2_dir_name: Option<&'a str>,
    /// Subdirectories that only this game's packages have.
    pub extra_sub_dirs: Vec<Subdir<'a>>,
    /// Where the game is sold.
    pub platforms: Platforms<'a>,
}

/// A game with nothing left out. Two games are the same game if they have the
/// same slug.
#[derive(Debug)]
pub struct GameData<'a> {
    name: &'a str,
    slug: String,
    steam_name: &'a str,
    steam_id: u32,
    mod_loader: ModLoader,
    r2_dir_name: String,
    extra_sub_dirs: Vec<Subdir<'a>>,
    popular: bool,
}

/// A game as contracts see it.
pub struct GameDataView {
    /// The name of the game as it is shown.
    pub name: Seq<char>,
    /// The slug: the name of the game in addresses.
    pub slug: Seq<char>,
    /// The name of the game's directory on Steam.
    pub steam_name: Seq<char>,
    /// The identifier of the game on Steam.
    pub steam_id: u32,
    /// The mod loader that the game's mods are written for.
    pub mod_loader: ModLoader,
    /// The name of the directory that holds the game's profiles.
    pub r2_dir_name: Seq<char>,
    /// Subdirectories that only this game's packages have.
    pub extra_sub_dirs: Seq<SubdirView>,
    /// Whether the game is shown among the popular ones.
    pub popular: bool,
}

impl<'a> View for GameData<'a> {
    type V = GameDataView;

    closed spec fn view(&self) -> GameDataView {
        GameDataView {
            name: self.name@,
            slug: self.slug@,
            steam_name: self.steam_name@,
            steam_id: self.steam_id,
            mod_loader: self.mod_loader,
            r2_dir_name: self.r2_dir_name@,
            extra_sub_dirs: subdir_views(self.extra_sub_dirs@),
            popular: self.popular,
        }
    }
}

/// The game that a description and the two derived names make. On Steam the
/// game has the name of its directory where the file gives one, and its own
/// name where it does not.
pub open spec fn named_game(
    value: JsonGame<'_>,
    slug: Seq<char>,
    r2_dir_name: Seq<char>,
) -> GameDataView {
    GameDataView {
        name: value.name@,
        slug,
        steam_name: match value.platforms.steam {
            Steam::Concise(_) => value.name@,
            Steam::Full { dir_name, .. } => dir_name@,
        },
        steam_id: match value.platforms.steam {
            Steam::Concise(id) => id,
            Steam::Full { id, .. } => id,
        },
        mod_loader: value.mod_loader,
        r2_dir_name,
        extra_sub_dirs: subdir_views(value.extra_sub_dirs@),
        popular: value.popular,
    }
}

/// The slug of a game: the one the file gives, else the name in kebab case.
pub open spec fn slug_of(value: JsonGame<'_>) -> Seq<char> {
    match value.slug {
        Some(slug) => slug@,
        None => kebab_case(value.name@),
    }
}

/// The directory name of a game: the one the file gives, else the slug in
/// Pascal case.
pub open spec fn r2_dir_name_of(value: JsonGame<'_>) -> Seq<char> {
    match value.r2_dir_name {
        Some(name) => name@,
        None => pascal_case(slug_of(value)),
    }
}

/// The game that a description stands for.
pub open spec fn game_of(value: JsonGame<'_>) -> GameDataView {
    named_game(value, slug_of(value), r2_dir_name_of(value))
}

impl<'a> GameData<'a> {
    /// Makes a game of its description and the two names that the
    /// description may leave out.
    pub fn with_names(value: JsonGame<'a>, slug: String, r2_dir_name: String) -> (game: Self)
        ensures
            game@ == named_game(value, slug@, r2_dir_name@),
    {
        let JsonGame { name, slug: _, popular, mod_loader, r2_dir_name: _, extra_sub_dirs, platforms } =
            value;
        let (steam_id, steam_name) = match platforms.steam {
            Steam::Concise(id) => (id, name),
            Steam::Full { id, dir_name } => (id, dir_name),
        };
        Self { name, slug, steam_name, steam_id, mod_loader, r2_dir_name, extra_sub_dirs, popular }
    }

    /// Makes a game of its description, deriving what it leaves out.
    pub fn from_json(value: JsonGame<'a>) -> (game: Self)
        ensures
            game@ == game_of(value),
    {
        let slug = match value.slug {
            Some(slug) => slug.to_owned(),
            None => to_kebab_case(value.name),
        };
        let r2_dir_name = match value.r2_dir_name {
            Some(name) => name.to_owned(),
            None => to_pascal_case(slug.as_str()),
        };
        GameData::with_names(value, slug, r2_dir_name)
    }
}

impl<'a> From<JsonGame<'a>> for GameData<'a> {
    /// Makes a game of its description, deriving what it leaves out.
    fn from(value: JsonGame<'a>) -> (game: Self)
        ensures
            game@ == game_of(value),
    {
        GameData::from_json(value)
    }
}

/// A game holds owned strings, so no function of the description alone can
/// say which value `from` returns, only what that value holds: `from` states
/// that itself.
impl<'a> vstd::std_specs::convert::FromSpecImpl<JsonGame<'a>> for GameData<'a> {
    open spec fn obeys_from_spec() -> bool {
        false
    }

    open spec fn from_spec(value: JsonGame<'a>) -> Self {
        choose|game: GameData<'a>| game@ == game_of(value)
    }
}

impl PartialEq for GameData<'_> {
    /// Whether two games have the same slug.
    fn eq(&self, other: &Self) -> (same: bool) {
        self.slug == other.slug
    }
}

impl vstd::std_specs::cmp::PartialEqSpecImpl for GameData<'_> {
    open spec fn obeys_eq_spec() -> bool {
        true
    }

    open spec fn eq_spec(&self, other: &Self) -> bool {
        self@.slug == other@.slug
    }
}

impl Eq for GameData<'_> {

}

/// Trusted: `Hash::hash` of `String`, which feeds the text to the hasher.
/// Nothing is claimed of what the hasher then holds.
pub assume_specification<H: core::hash::Hasher>[ <String as core::hash::Hash>::hash::<H> ](
    text: &String,
    state: &mut H,
);

impl core::hash::Hash for GameData<'_> {
    fn hash<H: core::hash::Hasher>(&self, state: &mut H) {
        self.slug.hash(state);
    }
}

/// The list of games.
pub struct GameCatalog<'a> {
    games: Vec<GameData<'a>>,
}

impl<'a> View for GameCatalog<'a> {
    type V = Seq<GameDataView>;

    closed spec fn view(&self) -> Seq<GameDataView> {
        self.games@.map_values(|game: GameData| game@)
    }
}

impl<'a> GameCatalog<'a> {
    /// The list of the games that the descriptions stand for, in their
    /// order.
    pub fn from_json(games: Vec<JsonGame<'a>>) -> (catalog: Self)
        ensures
            catalog@ == games@.map_values(|value: JsonGame| game_of(value)),
    {
        let ghost all = games@.map_values(|value: JsonGame| game_of(value));
        let mut list: Vec<GameData<'a>> = Vec::new();
        for value in it: games
            invariant
                it.seq().map_values(|value: JsonGame| game_of(value)) == all,
                list@.map_values(|game: GameData| game@) == all.subrange(0, it.index() as int),
        {
            let ghost before = list@.map_values(|game: GameData| game@);
            let game = GameData::from_json(value);
            list.push(game);
            assert(list@.map_values(|game: GameData| game@) =~= before.push(game@));
        }
        GameCatalog { games: list }
    }

    /// The number of games.
    pub fn len(&self) -> (len: usize)
        ensures
            len == self@.len(),
    {
        self.games.len()
    }
}

/// A game of the list.
#[derive(Debug, Clone, Copy, PartialEq, Eq, Hash)]
pub struct Game<'a>(&'a GameData<'a>);

impl<'a> View for Game<'a> {
    type V = GameDataView;

    closed spec fn view(&self) -> GameDataView {
        self.0@
    }
}

/// The place of the first game with the slug, if there is one.
pub open spec fn first_with_slug(games: Seq<GameDataView>, slug: Seq<char>, at: int) -> bool {
    &&& 0 <= at < games.len()
    &&& games[at].slug == slug
    &&& forall|k: int| 0 <= k < at ==> (#[trigger] games[k]).slug != slug
}

impl<'a> Game<'a> {
    /// All games, in the order of the list.
    pub fn all(catalog: &'a GameCatalog<'a>) -> (games: Vec<Self>)
        ensures
            games@.map_values(|game: Game| game@) == catalog@,
    {
        let mut games: Vec<Game<'a>> = Vec::new();
        let mut i: usize = 0;
        while i < catalog.games.len()
            invariant
                i <= catalog.games@.len(),
                games@.map_values(|game: Game| game@) == catalog@.subrange(0, i as int),
            decreases catalog.games@.len() - i,
        {
            let ghost before = games@.map_values(|game: Game| game@);
            games.push(Game(&catalog.games[i]));
            assert(games@.map_values(|game: Game| game@) =~= before.push(catalog@[i as int]));
            i += 1;
        }
        games
    }

    /// The first game of the list with the given slug.
    pub fn from_slug(catalog: &'a GameCatalog<'a>, slug: &str) -> (found: Option<Self>)
        ensures
            match found {
                Some(game) => exists|at: int|
                    first_with_slug(catalog@, slug@, at) && game@ == #[trigger] catalog@[at],
                None => forall|k: int| 0 <= k < catalog@.len() ==> (#[trigger] catalog@[k]).slug != slug@,
            },
    {
        let mut i: usize = 0;
        while i < catalog.games.len()
            invariant
                i <= catalog.games@.len(),
                forall|k: int| 0 <= k < i ==> (#[trigger] catalog@[k]).slug != slug@,
            decreases catalog.games@.len() - i,
        {
            if str_eq(catalog.games[i].slug.as_str(), slug) {
                assert(first_with_slug(catalog@, slug@, i as int));
                return Some(Game(&catalog.games[i]));
            }
            i += 1;
        }
        None
    }

    /// The subdirectories that a package for this game may have: those of
    /// its mod loader, then those of its own.
    pub fn subdirs(self) -> (subdirs: Vec<Subdir<'a>>)
        ensures
            subdir_views(subdirs@) == bepinex_subdirs() + self@.extra_sub_dirs,
    {
        let common = self.0.mod_loader.subdirs();
        let mut subdirs: Vec<Subdir<'a>> = Vec::new();
        let mut i: usize = 0;
        while i < common.len()
            invariant
                i <= common@.len(),
                subdir_views(common@) == bepinex_subdirs(),
                subdir_views(subdirs@) == bepinex_subdirs().subrange(0, i as int),
            decreases common@.len() - i,
        {
            let ghost before = subdir_views(subdirs@);
            subdirs.push(common[i].duplicate());
            assert(subdir_views(subdirs@) =~= before.push(common@[i as int]@));
            i += 1;
        }
        let own = &self.0.extra_sub_dirs;
        let mut j: usize = 0;
        while j < own.len()
            invariant
                j <= own@.len(),
                subdir_views(own@) == self@.extra_sub_dirs,
                subdir_views(subdirs@) == bepinex_subdirs() + self@.extra_sub_dirs.subrange(
                    0,
                    j as int,
                ),
            decreases own@.len() - j,
        {
            let ghost before = subdir_views(subdirs@);
            subdirs.push(own[j].duplicate());
            assert(subdir_views(subdirs@) =~= before.push(own@[j as int]@));
            j += 1;
        }
        subdirs
    }

    /// The name of the game as it is shown.
    pub fn name(self) -> (name: &'a str)
        ensures
            name@ == self@.name,
    {
        self.0.name
    }

    /// The slug of the game: its name in addresses.
    pub fn slug(self) -> (slug: &'a str)
        ensures
            slug@ == self@.slug,
    {
        self.0.slug.as_str()
    }

    /// The name of the game's directory on Steam.
    pub fn steam_name(self) -> (name: &'a str)
        ensures
            name@ == self@.steam_name,
    {
        self.0.steam_name
    }

    /// The identifier of the game on Steam.
    pub fn steam_id(self) -> (id: u32)
        ensures
            id == self@.steam_id,
    {
        self.0.steam_id
    }

    /// The mod loader that the game's mods are written for.
    pub fn mod_loader(self) -> (loader: ModLoader)
        ensures
            loader == self@.mod_loader,
    {
        self.0.mod_loader.duplicate()
    }

    /// The name of the directory that holds the game's profiles.
    pub fn r2_dir_name(self) -> (name: &'a str)
        ensures
            name@ == self@.r2_dir_name,
    {
        self.0.r2_dir_name.as_str()
    }

    /// Whether the game is shown among the popular ones.
    pub fn is_popular(self) -> (popular: bool)
        ensures
            popular == self@.popular,
    {
        self.0.popular
    }
}

} // verus!
