//! The parameters of a session.
use vstd::prelude::*;
use vstd::string::StringExecFns;

verus! {

/// What a collector run is started with. The record is never changed, and a
/// reconnect starts the next run with the same one.
#[derive(Clone, Debug, PartialEq, Eq)]
pub struct CrystalParams {
    /// Instrument symbols to subscribe to, in the order they were discovered.
    pub assets: Vec<String>,
    /// Address of the quote server, as `host:port`.
    pub mkt_data_address: String,
    /// Login name, sent verbatim as the answer to the name prompt.
    pub mkt_data_username: String,
    /// Password, sent verbatim as the answer to the password prompt.
    pub mkt_data_password: String,
}

impl CrystalParams {
    /// The protocol tells lines apart, not tokens: both credentials have to
    /// end with a newline to be understood by the server.
    pub open spec fn wf(&self) -> bool {
        &&& self.mkt_data_username@.len() > 0 && self.mkt_data_username@.last() == '\n'
        &&& self.mkt_data_password@.len() > 0 && self.mkt_data_password@.last() == '\n'
    }
}

/// Builds the session parameters from the bare secrets: each credential
/// gets the newline that the protocol wants behind it.
pub fn session_params(
    assets: Vec<String>,
    address: String,
    username: String,
    password: String,
) -> (params: CrystalParams)
    ensures
        params.assets == assets,
        params.mkt_data_address == address,
        params.mkt_data_username@ == username@.push('\n'),
        params.mkt_data_password@ == password@.push('\n'),
        params.wf(),
{
    proof {
        reveal_strlit("\n");
    }
    let mkt_data_username = username.concat("\n");
    let mkt_data_password = password.concat("\n");
    assert(mkt_data_username@ =~= username@.push('\n'));
    assert(mkt_data_password@ =~= password@.push('\n'));
    CrystalParams { assets, mkt_data_address: address, mkt_data_username, mkt_data_password }
}

} // verus!
