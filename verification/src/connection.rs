//! The set-up of a client's connections, which is kept once it succeeded.
use reqwest::Certificate;
use vstd::prelude::*;

use crate::ca::read_of;
use crate::client::{ClientConfig, ObscuraHttpClient};
use crate::error::{ErrorView, ObscuraNetError};
use crate::text::concat;

verus! {

/// What makes the connections of a client, a value of type `C`, if it was set
/// up.
#[derive(Debug)]
pub struct Connection<C> {
    pub kept: Option<C>,
}

/// The message in what making the connections gave.
pub open spec fn built_of<C>(built: Result<C, String>) -> Result<C, Seq<char>> {
    match built {
        Ok(connections) => Ok(connections),
        Err(reason) => Err(reason@),
    }
}

/// What a set-up gives: what is kept of an earlier one, else an error if the
/// CA bundle cannot be loaded, else what making the connections gives.
pub open spec fn set_up<C>(
    kept: Option<C>,
    roots: Result<Seq<Certificate>, ErrorView>,
    built: Result<C, Seq<char>>,
) -> Result<C, ErrorView> {
    match kept {
        Some(connections) => Ok(connections),
        None => match roots {
            Err(error) => Err(error),
            Ok(_) => match built {
                Ok(connections) => Ok(connections),
                Err(reason) => Err(
                    ErrorView::Network("failed to build HTTP client: "@ + reason),
                ),
            },
        },
    }
}

/// What is kept of a set-up: all of one that succeeded, nothing of one that
/// failed.
pub open spec fn kept_of<C>(outcome: Result<C, ErrorView>) -> Option<C> {
    match outcome {
        Ok(connections) => Some(connections),
        Err(_) => None,
    }
}

/// The error of a client whose connections could not be made.
pub fn connection_failure(reason: &str) -> (r: ObscuraNetError)
    ensures
        r@ == ErrorView::Network("failed to build HTTP client: "@ + reason@),
{
    ObscuraNetError::Network(concat("failed to build HTTP client: ", reason))
}

impl<C> Connection<C> {
    /// Connections that are still to be set up.
    pub fn new() -> (r: Self)
        ensures
            r.kept == None::<C>,
    {
        Connection { kept: None }
    }

    /// What makes the connections, if it was set up.
    pub fn client(&self) -> (r: Option<&C>)
        ensures
            match self.kept {
                Some(connections) => r == Some(&connections),
                None => r is None,
            },
    {
        self.kept.as_ref()
    }

    /// Sets up the connections of a client with `build`, unless that was done
    /// already. `ca_file` is what reading the file at the client's `ca_path`
    /// gave; it is looked at only if there is such a path and nothing was set
    /// up yet. After an error everything is as if nothing had been tried.
    pub fn get_client<J, B: FnOnce(ClientConfig) -> Result<C, String>>(
        &mut self,
        settings: &ObscuraHttpClient<J>,
        ca_file: Result<Vec<u8>, String>,
        build: B,
    ) -> (r: Result<(), ObscuraNetError>)
        requires
            forall|roots: Seq<Certificate>, config: ClientConfig|
                old(self).kept is None && settings@.extra_roots(read_of(ca_file)) == Ok::<
                    Seq<Certificate>,
                    ErrorView,
                >(roots) && #[trigger] settings@.configured(roots, config) ==> call_requires(
                    build,
                    (config,),
                ),
        ensures
            exists|built: Result<C, String>|
                {
                    &&& ({
                        let outcome = #[trigger] set_up(
                            old(self).kept,
                            settings@.extra_roots(read_of(ca_file)),
                            built_of(built),
                        );
                        &&& final(self).kept == kept_of(outcome)
                        &&& match outcome {
                            Ok(_) => r is Ok,
                            Err(error) => r matches Err(e) && e@ == error,
                        }
                    })
                    &&& old(self).kept is None && settings@.extra_roots(read_of(ca_file)) is Ok
                        ==> exists|config: ClientConfig| #[trigger]
                        settings@.configured(
                            settings@.extra_roots(read_of(ca_file))->Ok_0,
                            config,
                        ) && call_ensures(build, (config,), built)
                },
    {
        let ghost kept = self.kept;
        let ghost roots = settings@.extra_roots(read_of(ca_file));
        if self.kept.is_some() {
            let ghost any: Result<C, String> = Ok(kept->Some_0);
            assert(set_up(kept, roots, built_of(any)) == Ok::<C, ErrorView>(kept->Some_0));
            return Ok(());
        }
        let config = match settings.connection_config(ca_file) {
            Ok(config) => config,
            Err(error) => {
                let ghost any: Result<C, String> = arbitrary();
                assert(set_up(kept, roots, built_of(any)) == Err::<C, ErrorView>(error@));
                return Err(error);
            },
        };
        assert(settings@.configured(roots->Ok_0, config));
        let built = build(config);
        match built {
            Ok(connections) => {
                assert(set_up(kept, roots, built_of(built)) == Ok::<C, ErrorView>(connections));
                self.kept = Some(connections);
                Ok(())
            },
            Err(reason) => {
                assert(set_up(kept, roots, built_of(built)) is Err);
                Err(connection_failure(reason.as_str()))
            },
        }
    }
}

} // verus!
