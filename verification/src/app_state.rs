//! The shared services of the application, grouped by feature, and the
//! adapters that hand one feature's services to another.
//!
//! The services themselves belong to features outside this library; each
//! container is generic over their types.

use vstd::prelude::*;
use std::sync::Arc;

verus! {

/// The account services.
pub struct AuthState<Reg, Login, Guest, Refresh, Exists> {
    pub register_user: Arc<Reg>,
    pub login_user: Arc<Login>,
    pub auth_as_guest: Arc<Guest>,
    pub refresh_session: Arc<Refresh>,
    pub user_exists: Arc<Exists>,
}

impl<Reg, Login, Guest, Refresh, Exists> AuthState<Reg, Login, Guest, Refresh, Exists> {
    pub fn new(
        register_user: Arc<Reg>,
        login_user: Arc<Login>,
        auth_as_guest: Arc<Guest>,
        refresh_session: Arc<Refresh>,
        user_exists: Arc<Exists>,
    ) -> (s: Self)
        ensures
            s.register_user == register_user,
            s.login_user == login_user,
            s.auth_as_guest == auth_as_guest,
            s.refresh_session == refresh_session,
            s.user_exists == user_exists,
    {
        AuthState { register_user, login_user, auth_as_guest, refresh_session, user_exists }
    }
}

/// The media services.
pub struct MediaState<Upload, Url, Attach> {
    pub upload_media: Arc<Upload>,
    pub get_media_asset_url: Arc<Url>,
    pub mark_media_attached: Arc<Attach>,
}

impl<Upload, Url, Attach> MediaState<Upload, Url, Attach> {
    pub fn new(upload_media: Arc<Upload>, get_media_asset_url: Arc<Url>, mark_media_attached: Arc<Attach>) -> (s:
        Self)
        ensures
            s.upload_media == upload_media,
            s.get_media_asset_url == get_media_asset_url,
            s.mark_media_attached == mark_media_attached,
    {
        MediaState { upload_media, get_media_asset_url, mark_media_attached }
    }
}

/// The realtime services.
pub struct RealtimeState<Processor> {
    pub processor: Arc<Processor>,
}

impl<Processor> RealtimeState<Processor> {
    pub fn new(processor: Arc<Processor>) -> (s: Self)
        ensures
            s.processor == processor,
    {
        RealtimeState { processor }
    }
}

/// The user-profile services.
pub struct UserState<UpdateMe, Avatar, Me, ById, List, Users, Promote> {
    pub update_me: Arc<UpdateMe>,
    pub update_my_avatar: Arc<Avatar>,
    pub get_me: Arc<Me>,
    pub get_user_by_id: Arc<ById>,
    pub get_user_list: Arc<List>,
    pub get_users: Arc<Users>,
    pub promote_to_admin: Arc<Promote>,
}

impl<UpdateMe, Avatar, Me, ById, List, Users, Promote> UserState<
    UpdateMe,
    Avatar,
    Me,
    ById,
    List,
    Users,
    Promote,
> {
    pub fn new(
        update_me: Arc<UpdateMe>,
        update_my_avatar: Arc<Avatar>,
        get_me: Arc<Me>,
        get_user_by_id: Arc<ById>,
        get_user_list: Arc<List>,
        get_users: Arc<Users>,
        promote_to_admin: Arc<Promote>,
    ) -> (s: Self)
        ensures
            s.update_me == update_me,
            s.update_my_avatar == update_my_avatar,
            s.get_me == get_me,
            s.get_user_by_id == get_user_by_id,
            s.get_user_list == get_user_list,
            s.get_users == get_users,
            s.promote_to_admin == promote_to_admin,
    {
        UserState { update_me, update_my_avatar, get_me, get_user_by_id, get_user_list, get_users, promote_to_admin }
    }
}

/// Hands media lookups and checks to the game feature.
pub struct GameMediaManagerAdapter<Url, Repo> {
    pub get_media_asset_url: Arc<Url>,
    pub media_repository: Arc<Repo>,
}

impl<Url, Repo> GameMediaManagerAdapter<Url, Repo> {
    pub fn new(get_media_asset_url: Arc<Url>, media_repository: Arc<Repo>) -> (s: Self)
        ensures
            s.get_media_asset_url == get_media_asset_url,
            s.media_repository == media_repository,
    {
        GameMediaManagerAdapter { get_media_asset_url, media_repository }
    }
}

/// Hands realtime publishing to the game feature.
pub struct GameNotificationSenderAdapter<Publish, Url> {
    pub publish_usecase: Arc<Publish>,
    pub get_media_asset_url: Arc<Url>,
}

impl<Publish, Url> GameNotificationSenderAdapter<Publish, Url> {
    pub fn new(publish_usecase: Arc<Publish>, get_media_asset_url: Arc<Url>) -> (s: Self)
        ensures
            s.publish_usecase == publish_usecase,
            s.get_media_asset_url == get_media_asset_url,
    {
        GameNotificationSenderAdapter { publish_usecase, get_media_asset_url }
    }
}

/// Hands realtime token issuing to the game feature.
pub struct GameTokenGeneratorAdapter<Tokens> {
    pub token_usecase: Arc<Tokens>,
}

impl<Tokens> GameTokenGeneratorAdapter<Tokens> {
    pub fn new(token_usecase: Arc<Tokens>) -> (s: Self)
        ensures
            s.token_usecase == token_usecase,
    {
        GameTokenGeneratorAdapter { token_usecase }
    }
}

/// Hands media lookups and uploads to the user feature, for avatars.
pub struct MediaAssetToUserAvatarAdapter<Url, Upload> {
    pub get_media_asset_url: Arc<Url>,
    pub upload_media: Arc<Upload>,
}

impl<Url, Upload> MediaAssetToUserAvatarAdapter<Url, Upload> {
    pub fn new(get_media_asset_url: Arc<Url>, upload_media: Arc<Upload>) -> (s: Self)
        ensures
            s.get_media_asset_url == get_media_asset_url,
            s.upload_media == upload_media,
    {
        MediaAssetToUserAvatarAdapter { get_media_asset_url, upload_media }
    }
}

} // verus!
