//! Wire codes of plugin categories and sort orders, and category titles.
use vstd::prelude::*;
use crate::text::str_eq;

verus! {

/// The closed set of categories a plugin is filed under.
#[derive(Clone, Copy, Debug, PartialEq, Eq, Structural)]
pub enum PluginCategory {
    AdminTools,
    Chat,
    DeveloperTools,
    Economy,
    Gameplay,
    Games,
    Protection,
    RolePlaying,
    WorldManagement,
    Miscellaneous,
}

/// The closed set of orders in which results can be sorted.
#[derive(Clone, Copy, Debug, PartialEq, Eq, Structural)]
pub enum SortType {
    RecentlyUpdated,
    MostStars,
    MostDownloads,
    MostViews,
    Newest,
}

/// A wire code or title that matches no known category or sort order.
#[derive(Clone, Debug)]
pub enum CodecError {
    UnknownCategoryCode(u32),
    UnknownCategoryTitle(String),
    UnknownSortCode(u32),
}

/// The wire code of a category.
pub open spec fn category_code(c: PluginCategory) -> nat {
    match c {
        PluginCategory::AdminTools => 0,
        PluginCategory::Chat => 1,
        PluginCategory::DeveloperTools => 2,
        PluginCategory::Economy => 3,
        PluginCategory::Gameplay => 4,
        PluginCategory::Games => 5,
        PluginCategory::Protection => 6,
        PluginCategory::RolePlaying => 7,
        PluginCategory::WorldManagement => 8,
        PluginCategory::Miscellaneous => 9,
    }
}

/// The display title of a category.
pub open spec fn category_title(c: PluginCategory) -> Seq<char> {
    match c {
        PluginCategory::AdminTools => "Admin Tools"@,
        PluginCategory::Chat => "Chat"@,
        PluginCategory::DeveloperTools => "Developer Tools"@,
        PluginCategory::Economy => "Economy"@,
        PluginCategory::Gameplay => "Gameplay"@,
        PluginCategory::Games => "Games"@,
        PluginCategory::Protection => "Protection"@,
        PluginCategory::RolePlaying => "Role Playing"@,
        PluginCategory::WorldManagement => "World Management"@,
        PluginCategory::Miscellaneous => "Miscellaneous"@,
    }
}

/// The category with wire code `n`, if there is one.
pub open spec fn category_of_code(n: nat) -> Option<PluginCategory> {
    if exists|c: PluginCategory| category_code(c) == n {
        Some(choose|c: PluginCategory| category_code(c) == n)
    } else {
        None
    }
}

/// The category whose display title is `t`, if there is one.
pub open spec fn category_of_title(t: Seq<char>) -> Option<PluginCategory> {
    if exists|c: PluginCategory| category_title(c) == t {
        Some(choose|c: PluginCategory| category_title(c) == t)
    } else {
        None
    }
}

/// The wire code of a sort order.
pub open spec fn sort_code(s: SortType) -> nat {
    match s {
        SortType::MostStars => 0,
        SortType::MostDownloads => 1,
        SortType::MostViews => 2,
        SortType::Newest => 3,
        SortType::RecentlyUpdated => 4,
    }
}

/// The sort order with wire code `n`, if there is one.
pub open spec fn sort_of_code(n: nat) -> Option<SortType> {
    if exists|s: SortType| sort_code(s) == n {
        Some(choose|s: SortType| sort_code(s) == n)
    } else {
        None
    }
}

proof fn lemma_category_code_injective(a: PluginCategory, b: PluginCategory)
    ensures
        category_code(a) == category_code(b) ==> a == b,
{
}

proof fn lemma_category_title_injective(a: PluginCategory, b: PluginCategory)
    ensures
        category_title(a) == category_title(b) ==> a == b,
{
    reveal_strlit("Admin Tools");
    reveal_strlit("Chat");
    reveal_strlit("Developer Tools");
    reveal_strlit("Economy");
    reveal_strlit("Gameplay");
    reveal_strlit("Games");
    reveal_strlit("Protection");
    reveal_strlit("Role Playing");
    reveal_strlit("World Management");
    reveal_strlit("Miscellaneous");
    if category_title(a) == category_title(b) && a != b {
        let ta = category_title(a);
        let tb = category_title(b);
        assert(ta.len() == tb.len());
        assert(ta[0] == tb[0]);
        assert(ta[1] == tb[1]);
        assert(ta[2] == tb[2]);
    }
}

proof fn lemma_sort_code_injective(a: SortType, b: SortType)
    ensures
        sort_code(a) == sort_code(b) ==> a == b,
{
}

/// Every category comes back from its wire code and from its display title.
pub proof fn lemma_category_round_trip(c: PluginCategory)
    ensures
        category_of_code(category_code(c)) == Some(c),
        category_of_title(category_title(c)) == Some(c),
{
    let n = category_code(c);
    let d = choose|d: PluginCategory| category_code(d) == n;
    lemma_category_code_injective(c, d);
    let t = category_title(c);
    let e = choose|e: PluginCategory| category_title(e) == t;
    lemma_category_title_injective(c, e);
}

/// Every sort order comes back from its wire code.
pub proof fn lemma_sort_round_trip(s: SortType)
    ensures
        sort_of_code(sort_code(s)) == Some(s),
{
    let n = sort_code(s);
    let d = choose|d: SortType| sort_code(d) == n;
    lemma_sort_code_injective(s, d);
}

/// Codes past the tables match nothing.
pub proof fn lemma_unknown_codes(n: nat)
    ensures
        n >= 10 ==> category_of_code(n) is None,
        n >= 5 ==> sort_of_code(n) is None,
{
}

impl PluginCategory {
    /// The wire code of this category.
    pub fn to_int(&self) -> (r: u8)
        ensures
            r as nat == category_code(*self),
    {
        match *self {
            PluginCategory::AdminTools => 0,
            PluginCategory::Chat => 1,
            PluginCategory::DeveloperTools => 2,
            PluginCategory::Economy => 3,
            PluginCategory::Gameplay => 4,
            PluginCategory::Games => 5,
            PluginCategory::Protection => 6,
            PluginCategory::RolePlaying => 7,
            PluginCategory::WorldManagement => 8,
            PluginCategory::Miscellaneous => 9,
        }
    }

    /// The category with wire code `id`.
    pub fn from_int(id: u32) -> (r: Result<PluginCategory, CodecError>)
        ensures
            r == match category_of_code(id as nat) {
                Some(c) => Ok(c),
                None => Err(CodecError::UnknownCategoryCode(id)),
            },
    {
        let r = match id {
            0 => Ok(PluginCategory::AdminTools),
            1 => Ok(PluginCategory::Chat),
            2 => Ok(PluginCategory::DeveloperTools),
            3 => Ok(PluginCategory::Economy),
            4 => Ok(PluginCategory::Gameplay),
            5 => Ok(PluginCategory::Games),
            6 => Ok(PluginCategory::Protection),
            7 => Ok(PluginCategory::RolePlaying),
            8 => Ok(PluginCategory::WorldManagement),
            9 => Ok(PluginCategory::Miscellaneous),
            _ => Err(CodecError::UnknownCategoryCode(id)),
        };
        proof {
            if let Ok(c) = r {
                lemma_category_round_trip(c);
            }
        }
        r
    }

    /// The display title of this category.
    pub fn title(&self) -> (r: &'static str)
        ensures
            r@ == category_title(*self),
    {
        match *self {
            PluginCategory::AdminTools => "Admin Tools",
            PluginCategory::Chat => "Chat",
            PluginCategory::DeveloperTools => "Developer Tools",
            PluginCategory::Economy => "Economy",
            PluginCategory::Gameplay => "Gameplay",
            PluginCategory::Games => "Games",
            PluginCategory::Protection => "Protection",
            PluginCategory::RolePlaying => "Role Playing",
            PluginCategory::WorldManagement => "World Management",
            PluginCategory::Miscellaneous => "Miscellaneous",
        }
    }

    /// The category whose display title is exactly `id`.
    pub fn from_str(id: &str) -> (r: Result<PluginCategory, CodecError>)
        ensures
            match category_of_title(id@) {
                Some(c) => r == Ok::<PluginCategory, CodecError>(c),
                None => r matches Err(CodecError::UnknownCategoryTitle(t)) && t@ == id@,
            },
    {
        let all = [
            PluginCategory::AdminTools,
            PluginCategory::Chat,
            PluginCategory::DeveloperTools,
            PluginCategory::Economy,
            PluginCategory::Gameplay,
            PluginCategory::Games,
            PluginCategory::Protection,
            PluginCategory::RolePlaying,
            PluginCategory::WorldManagement,
            PluginCategory::Miscellaneous,
        ];
        let mut i: usize = 0;
        while i < 10
            invariant
                i <= 10,
                forall|k: int| 0 <= k < i ==> category_title(#[trigger] all@[k]) != id@,
                all@ == seq![
                    PluginCategory::AdminTools,
                    PluginCategory::Chat,
                    PluginCategory::DeveloperTools,
                    PluginCategory::Economy,
                    PluginCategory::Gameplay,
                    PluginCategory::Games,
                    PluginCategory::Protection,
                    PluginCategory::RolePlaying,
                    PluginCategory::WorldManagement,
                    PluginCategory::Miscellaneous,
                ],
            decreases 10 - i,
        {
            let c = all[i];
            if str_eq(c.title(), id) {
                proof {
                    lemma_category_round_trip(c);
                }
                return Ok(c);
            }
            i = i + 1;
        }
        proof {
            assert forall|c: PluginCategory| category_title(c) != id@ by {
                let k: int = category_code(c) as int;
                assert(all@[k] == c);
            }
        }
        Err(CodecError::UnknownCategoryTitle(id.to_string()))
    }
}

impl SortType {
    /// The wire code of this sort order.
    pub fn to_int(&self) -> (r: u8)
        ensures
            r as nat == sort_code(*self),
    {
        match *self {
            SortType::MostStars => 0,
            SortType::MostDownloads => 1,
            SortType::MostViews => 2,
            SortType::Newest => 3,
            SortType::RecentlyUpdated => 4,
        }
    }

    /// The sort order with wire code `id`.
    pub fn from_int(id: u32) -> (r: Result<SortType, CodecError>)
        ensures
            r == match sort_of_code(id as nat) {
                Some(s) => Ok(s),
                None => Err(CodecError::UnknownSortCode(id)),
            },
    {
        let r = match id {
            0 => Ok(SortType::MostStars),
            1 => Ok(SortType::MostDownloads),
            2 => Ok(SortType::MostViews),
            3 => Ok(SortType::Newest),
            4 => Ok(SortType::RecentlyUpdated),
            _ => Err(CodecError::UnknownSortCode(id)),
        };
        proof {
            if let Ok(s) = r {
                lemma_sort_round_trip(s);
            }
        }
        r
    }
}

} // verus!
