# workspace_control

The decision-making core of a workspace control plane, written in Verus.
Every function in `src/` carries a contract that the verifier proves,
except the small `#[verifier::external_body]` wrappers around outside
crates, whose contracts are trusted and say so in their comments.

- `src/quota.rs`, `src/workspaces.rs`, `src/templates.rs`: resource
  quotas and what a template fixes for its workspaces.
- `src/runtime_incidents.rs`: how namespace events become workspace
  incidents, grouped per workspace.
- `src/plugins/`: the manifest, package and configuration-schema rules of
  plugins (schemas are compiled and values validated by the `jsonschema`
  crate, versions read by `semver`), and the decisions taken around their
  execution.
- `src/storage/`: the checks the store makes before and after its
  statements (identity, quotas, idempotency, leases, injections, node
  pools, plugin packages and configuration, snapshots, schema upgrades,
  and the upgrade of template documents to node-pool placements).
- `src/text.rs`, `src/json.rs`, `src/ids.rs`, `src/digest.rs`,
  `src/encoding.rs`: text, JSON values, identifiers, SHA-256 and Base64 as
  the rest of the library uses them; they call the `uuid`, `sha2` and
  `base64` crates.

`app/` holds what the verifier does not see: the JSON and YAML
conversions into the library's types, the reading of plugin packages on
disk, the clock, and a few of the SQLite queries (installation identity,
the planned migration, the in-place upgrade of a database one version
behind, the bridge from schema version 19, job counts and
workspace metrics), each of which
calls the library for its decisions. The other queries of the store are
not written there; `src/storage/` holds the checks they make before and
after their statements.

Running plugins (their WebAssembly components) and collecting runtime
events from the cluster are not part of this crate: the library decides
what a plugin's answer means and how collected events become incidents,
but it does not execute components or talk to a cluster.
