#[test]
fn claim_airdrop() {}

#[test]
fn transfer_sol() {}
