use anchor_lang::AnchorSerialize;

#[test]
fn test_instruction_data_construction() {
    // Initialize instruction (no args)
    let mut init_data = Vec::new();
    init_data.extend_from_slice(&[175, 175, 109, 31, 13, 152, 155, 237]);
    println!("Initialize instruction data: {} bytes", init_data.len());

    // Deposit instruction (u64 amount)
    let deposit_amount: u64 = 1000;
    let mut deposit_data = Vec::new();
    deposit_data.extend_from_slice(&[242, 35, 198, 137, 82, 225, 242, 182]);
    deposit_amount.serialize(&mut deposit_data).unwrap();
    println!("Deposit instruction data: {} bytes", deposit_data.len());

    // Withdraw instruction (u64 amount)
    let withdraw_amount: u64 = 500;
    let mut withdraw_data = Vec::new();
    withdraw_data.extend_from_slice(&[183, 18, 70, 156, 148, 109, 161, 34]);
    withdraw_amount.serialize(&mut withdraw_data).unwrap();
    println!("Withdraw instruction data: {} bytes", withdraw_data.len());

    // Close instruction (no args)
    let mut close_data = Vec::new();
    close_data.extend_from_slice(&[98, 165, 201, 177, 108, 65, 206, 96]);
    println!("Close instruction data: {} bytes", close_data.len());

    println!("All instruction data constructed successfully");
}
