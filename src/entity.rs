//! The decoded entities: plugins, their members, channels, recommended
//! version and its dependencies.
use vstd::prelude::*;
use crate::codec::PluginCategory;

verus! {

/// A release channel of a plugin.
#[derive(Clone, Debug)]
pub struct Channel {
    pub name: String,
    pub color: String,
}

/// A dependency of a version on another plugin.
#[derive(Clone, Debug)]
pub struct Dependency {
    pub plugin_id: String,
    pub version: String,
}

/// A member of a plugin's team.
#[derive(Clone, Debug)]
pub struct User {
    pub user_id: u32,
    pub name: String,
    pub roles: Vec<String>,
    pub head_role: String,
}

/// A released version of a plugin. `created_at` is the timestamp as sent.
#[derive(Clone, Debug)]
pub struct Version {
    pub id: u32,
    pub created_at: String,
    pub name: String,
    pub dependencies: Vec<Dependency>,
    pub plugin_id: String,
    pub channel: Channel,
    pub file_size: u32,
}

/// A plugin of the repository. `created_at` is the timestamp as sent.
#[derive(Clone, Debug)]
pub struct Plugin {
    pub plugin_id: String,
    pub created_at: String,
    pub name: String,
    pub owner: String,
    pub description: String,
    pub href: String,
    pub members: Vec<User>,
    pub channels: Vec<Channel>,
    pub recommended: Version,
    pub category: PluginCategory,
    pub views: u32,
    pub downloads: u32,
    pub stars: u32,
}

/// A channel as mathematical values.
pub struct ChannelModel {
    pub name: Seq<char>,
    pub color: Seq<char>,
}

/// A dependency as mathematical values.
pub struct DependencyModel {
    pub plugin_id: Seq<char>,
    pub version: Seq<char>,
}

/// A user as mathematical values.
pub struct UserModel {
    pub user_id: u32,
    pub name: Seq<char>,
    pub roles: Seq<Seq<char>>,
    pub head_role: Seq<char>,
}

/// A version as mathematical values.
pub struct VersionModel {
    pub id: u32,
    pub created_at: Seq<char>,
    pub name: Seq<char>,
    pub dependencies: Seq<DependencyModel>,
    pub plugin_id: Seq<char>,
    pub channel: ChannelModel,
    pub file_size: u32,
}

/// A plugin as mathematical values.
pub struct PluginModel {
    pub plugin_id: Seq<char>,
    pub created_at: Seq<char>,
    pub name: Seq<char>,
    pub owner: Seq<char>,
    pub description: Seq<char>,
    pub href: Seq<char>,
    pub members: Seq<UserModel>,
    pub channels: Seq<ChannelModel>,
    pub recommended: VersionModel,
    pub category: PluginCategory,
    pub views: u32,
    pub downloads: u32,
    pub stars: u32,
}

/// The characters of each string in order.
pub open spec fn strings_view(v: Seq<String>) -> Seq<Seq<char>> {
    v.map_values(|s: String| s@)
}

/// The model of each channel in order.
pub open spec fn channels_view(v: Seq<Channel>) -> Seq<ChannelModel> {
    v.map_values(|c: Channel| c@)
}

/// The model of each dependency in order.
pub open spec fn dependencies_view(v: Seq<Dependency>) -> Seq<DependencyModel> {
    v.map_values(|d: Dependency| d@)
}

/// The model of each user in order.
pub open spec fn users_view(v: Seq<User>) -> Seq<UserModel> {
    v.map_values(|u: User| u@)
}

/// The model of each plugin in order.
pub open spec fn plugins_view(v: Seq<Plugin>) -> Seq<PluginModel> {
    v.map_values(|p: Plugin| p@)
}

impl View for Channel {
    type V = ChannelModel;

    open spec fn view(&self) -> ChannelModel {
        ChannelModel { name: self.name@, color: self.color@ }
    }
}

impl View for Dependency {
    type V = DependencyModel;

    open spec fn view(&self) -> DependencyModel {
        DependencyModel { plugin_id: self.plugin_id@, version: self.version@ }
    }
}

impl View for User {
    type V = UserModel;

    open spec fn view(&self) -> UserModel {
        UserModel {
            user_id: self.user_id,
            name: self.name@,
            roles: strings_view(self.roles@),
            head_role: self.head_role@,
        }
    }
}

impl View for Version {
    type V = VersionModel;

    open spec fn view(&self) -> VersionModel {
        VersionModel {
            id: self.id,
            created_at: self.created_at@,
            name: self.name@,
            dependencies: dependencies_view(self.dependencies@),
            plugin_id: self.plugin_id@,
            channel: self.channel@,
            file_size: self.file_size,
        }
    }
}

impl View for Plugin {
    type V = PluginModel;

    open spec fn view(&self) -> PluginModel {
        PluginModel {
            plugin_id: self.plugin_id@,
            created_at: self.created_at@,
            name: self.name@,
            owner: self.owner@,
            description: self.description@,
            href: self.href@,
            members: users_view(self.members@),
            channels: channels_view(self.channels@),
            recommended: self.recommended@,
            category: self.category,
            views: self.views,
            downloads: self.downloads,
            stars: self.stars,
        }
    }
}

} // verus!
