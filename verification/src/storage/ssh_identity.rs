//! The public half of a workspace's SSH identity, and SSH logins.
use vstd::prelude::*;

use super::StorageError;
use crate::encoding::{base64_decode, base64_standard};
use crate::ids::{uuid_hyphenated, uuid_text};

verus! {

/// The key algorithm of every workspace identity.
pub const SSH_ALGORITHM: &'static str = "ssh-ed25519";

/// What may be shown of a workspace's SSH identity.
#[derive(Debug, Clone, PartialEq, Eq)]
pub struct WorkspaceSshPublicIdentity {
    pub algorithm: &'static str,
    pub public_key: String,
    pub fingerprint: String,
}

/// The public identity stored for a workspace.
pub fn public_identity(public_key: String, fingerprint: String) -> (identity:
    WorkspaceSshPublicIdentity)
    ensures
        identity.algorithm@ == SSH_ALGORITHM@,
        identity.public_key == public_key,
        identity.fingerprint == fingerprint,
{
    WorkspaceSshPublicIdentity { algorithm: SSH_ALGORITHM, public_key, fingerprint }
}

/// Decodes a base64 column of a stored identity envelope.
pub fn decode_identity_bytes(value: &str) -> (bytes: Result<Vec<u8>, StorageError>)
    ensures
        match bytes {
            Ok(b) => base64_standard(b@) == value@,
            Err(error) => error == StorageError::InvalidSshIdentity && forall|b: Seq<u8>|
                base64_standard(b) != value@,
        },
{
    match base64_decode(value) {
        Some(b) => Ok(b),
        None => Err(StorageError::InvalidSshIdentity),
    }
}

/// The SSH login of a public workspace: `access+` and its short id.
pub fn ssh_login(short_id: &str) -> (login: String)
    ensures
        login@ == "access+"@ + short_id@,
{
    let mut login = "access+".to_owned();
    login.append(short_id);
    login
}

/// The associated data that binds a workspace's encrypted SSH identity to
/// the installation and the workspace.
pub open spec fn ssh_identity_aad_of(installation: Seq<char>, workspace_id: u128) -> Seq<char> {
    installation + ":workspace-ssh:"@ + uuid_hyphenated(workspace_id) + ":v1"@
}

/// The associated data of a workspace's encrypted SSH identity; its UTF-8
/// bytes are authenticated with the ciphertext.
pub fn ssh_identity_aad(installation: &str, workspace_id: u128) -> (aad: String)
    ensures
        aad@ == ssh_identity_aad_of(installation@, workspace_id),
{
    let mut aad = installation.to_owned();
    aad.append(":workspace-ssh:");
    let id = uuid_text(workspace_id);
    aad.append(id.as_str());
    aad.append(":v1");
    aad
}

} // verus!
