# rwa_vault

Verified share accounting for yield-bearing vaults that hold game entry fees.

- `src/vault_adapter.rs`: the vault adapter interface (`RwaVaultAdapter`) and its
  error type.
- `src/vault_adapter/fixed_point.rs`: conversions between stroop amounts and vault
  shares at a six-decimal fixed-point yield multiplier, with proofs of their
  rounding behaviour.
- `src/mock_vault.rs`: the mock yield vault as an explicit state (`MockYieldVault`)
  with an abstract model (`VaultModel`); deposit, withdrawal and configuration are
  specified against the model, and properties across operations are proved on it.
- `src/payout.rs`: the payout contract's liveness probe.
- `app/`: Soroban contracts that load the vault state from instance storage, call
  the library, and store the result.
