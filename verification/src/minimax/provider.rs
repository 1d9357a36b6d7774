//! The provider: its account and the catalog of its models.
use crate::minimax::catalog;
use crate::minimax::catalog::ModelsResponse;
use vstd::prelude::*;

verus! {

/// How a provider's account is paid for.
#[derive(Debug, Clone, Copy, PartialEq, Eq, Structural)]
pub enum ProviderAccount {
    ApiKey,
}

/// The account of a provider.
#[derive(Debug, Clone, Copy, PartialEq, Eq)]
pub struct ProviderAccountState {
    pub account: Option<ProviderAccount>,
    pub requires_openai_auth: bool,
}

/// The catalog of a provider's models.
#[derive(Debug, PartialEq, Eq)]
pub enum OfferedCatalog<C> {
    /// The one that was configured.
    Configured(C),
    /// The default one.
    Bundled(ModelsResponse),
}

/// A provider, with what it was configured with and the manager of its
/// credentials.
pub struct MinimaxModelProvider<Info, Auth> {
    info: Info,
    auth_manager: Option<Auth>,
}

impl<Info, Auth> MinimaxModelProvider<Info, Auth> {
    /// What the provider was configured with.
    pub closed spec fn configured_with(&self) -> Info {
        self.info
    }

    /// The manager of its credentials.
    pub closed spec fn manager(&self) -> Option<Auth> {
        self.auth_manager
    }

    /// A provider with the manager of credentials that was resolved for it.
    pub fn new(provider_info: Info, auth_manager: Option<Auth>) -> (r: Self)
        ensures
            r.configured_with() == provider_info,
            r.manager() == auth_manager,
    {
        MinimaxModelProvider { info: provider_info, auth_manager }
    }

    /// What the provider was configured with.
    pub fn info(&self) -> (r: &Info)
        ensures
            *r == self.configured_with(),
    {
        &self.info
    }

    /// The manager of its credentials, if it has one.
    pub fn auth_manager(&self) -> (r: Option<&Auth>)
        ensures
            match r {
                Some(manager) => self.manager() == Some(*manager),
                None => self.manager() is None,
            },
    {
        match &self.auth_manager {
            Some(manager) => Some(manager),
            None => None,
        }
    }

    /// The account: always one with an API key, never one of another service.
    pub fn account_state(&self) -> (r: Result<ProviderAccountState, String>)
        ensures
            r == Ok::<ProviderAccountState, String>(
                ProviderAccountState {
                    account: Some(ProviderAccount::ApiKey),
                    requires_openai_auth: false,
                },
            ),
    {
        Ok(
            ProviderAccountState {
                account: Some(ProviderAccount::ApiKey),
                requires_openai_auth: false,
            },
        )
    }

    /// The catalog of the models: the configured one, whatever it holds, wins over
    /// the default one.
    pub fn models_manager<C>(&self, config_model_catalog: Option<C>) -> (r: OfferedCatalog<C>)
        ensures
            match config_model_catalog {
                Some(configured) => r == OfferedCatalog::Configured(configured),
                None => r matches OfferedCatalog::Bundled(bundled) && catalog::is_static_catalog(
                    bundled,
                ),
            },
    {
        match config_model_catalog {
            Some(configured) => OfferedCatalog::Configured(configured),
            None => OfferedCatalog::Bundled(catalog::static_model_catalog()),
        }
    }
}

} // verus!
