use elf64hdr::arch64::{
    Elf64BitEIdentValidationErrors, Elf64BitEMachineValidationErrors,
    Elf64BitETypeValidationErrors, Elf64BitValidator,
};

#[test]
fn validate_e_ident_returns_non_elf_file_err_when_arr_size_is_less_than_16() {
    let file = [0u8; 15];

    let result = Elf64BitValidator::new(&file).validate_e_ident();

    assert!(matches!(
        result,
        Err(Elf64BitEIdentValidationErrors::InvalidEIdentSize)
    ));
}

#[test]
fn validate_e_ident_return_non_elf_file_err_when_the_first_four_bytes_are_diff_than_the_recognized_magnumbers(
) {
    // the magic numbers are 0x7f, 0x45, 0x4c, 0x46
    let mut file = [0u8; 16];
    file[0] = 0;
    file[1] = 1;
    file[2] = 2;
    file[3] = 3;

    let result = Elf64BitValidator::new(&file).validate_e_ident();

    assert!(matches!(
        result,
        Err(Elf64BitEIdentValidationErrors::InvalidMagicNumbers)
    ));
}

#[test]
fn validate_e_ident_returns_non_64bit_file_error_if_the_elf_class_is_diff_than_2() {
    let mut file = [0u8; 16];
    file[0] = 0x7f;
    file[1] = 0x45;
    file[2] = 0x4c;
    file[3] = 0x46;
    file[4] = 1; // means that is a 32-bit object

    let result = Elf64BitValidator::new(&file).validate_e_ident();

    assert!(matches!(
        result,
        Err(Elf64BitEIdentValidationErrors::Non64BitELF(_))
    ));
}

#[test]
fn validate_e_ident_returns_invalid_endianness_error_if_e_ident5_is_invalid() {
    let mut file = [0u8; 16];
    file[0] = 0x7f;
    file[1] = 0x45;
    file[2] = 0x4c;
    file[3] = 0x46;
    file[4] = 2; // valid 64-bit class
    file[5] = 3; // invalid endianness (should be 1 or 2)

    let result = Elf64BitValidator::new(&file).validate_e_ident();

    assert!(matches!(
        result,
        Err(Elf64BitEIdentValidationErrors::InvalidEndianness(_))
    ));
}

#[test]
fn validate_e_ident_returns_invalid_elf_version_error_if_e_ident6_is_not_1() {
    let mut file = [0u8; 16];
    file[0] = 0x7f;
    file[1] = 0x45;
    file[2] = 0x4c;
    file[3] = 0x46;
    file[4] = 2; // valid 64-bit class
    file[5] = 1; // valid endianness (little-endian)
    file[6] = 2; // invalid ELF version (should be 1)

    let result = Elf64BitValidator::new(&file).validate_e_ident();

    assert!(matches!(
        result,
        Err(Elf64BitEIdentValidationErrors::InvalidELFVersion(_))
    ));
}

#[test]
fn validate_e_ident_returns_invalid_padding_error_if_padding_bytes_are_not_zero() {
    let mut file = [0u8; 16];
    file[0] = 0x7f;
    file[1] = 0x45;
    file[2] = 0x4c;
    file[3] = 0x46;
    file[4] = 2; // valid 64-bit class
    file[5] = 1; // valid endianness
    file[6] = 1; // valid ELF version
    file[9] = 1; // padding should be zero, but here it's 1

    let result = Elf64BitValidator::new(&file).validate_e_ident();

    assert!(matches!(
        result,
        Err(Elf64BitEIdentValidationErrors::InvalidPadding)
    ));
}

#[test]
fn validate_e_ident_returns_ok_if_all_bytes_are_valid() {
    let mut file = [0u8; 16];
    file[0] = 0x7f;
    file[1] = 0x45;
    file[2] = 0x4c;
    file[3] = 0x46;
    file[4] = 2; // valid 64-bit
    file[5] = 1; // valid endianness
    file[6] = 1; // valid version
    file[7] = 0; // OS ABI
    file[8] = 0; // ABI Version
    // padding already 0 by default

    let result = Elf64BitValidator::new(&file).validate_e_ident();

    assert!(result.is_ok());
}

fn create_valid_file_for_e_type() -> Box<[u8]> {
    let mut file = [0u8; 52];
    file[0..4].copy_from_slice(&[0x7f, 0x45, 0x4c, 0x46]);
    file[5] = 2;
    file[4] = 2;
    file[6] = 1;

    Box::new(file)
}

#[test]
fn validate_e_type_returns_invalid_elf_file_err_when_endianness_is_invalid() {
    let mut file = create_valid_file_for_e_type();
    file[5] = 3;

    let result = Elf64BitValidator::new(&file).validate_e_type();

    assert!(matches!(
        result,
        Err(Elf64BitETypeValidationErrors::InvalidEndianness(3))
    ));
}

#[test]
fn validate_e_type_returns_invalid_e_type_size_when_file_size_is_less_than_18() {
    let file = [0u8; 17];

    let result = Elf64BitValidator::new(&file).validate_e_type();

    assert!(matches!(
        result,
        Err(Elf64BitETypeValidationErrors::InvalidETypeSize)
    ));
}

#[test]
fn validate_e_type_returns_invalid_e_type_value_when_value_is_invalid() {
    let mut file = create_valid_file_for_e_type();
    file[16..18].copy_from_slice(&[0x00, 0x05]);

    let result = Elf64BitValidator::new(&file).validate_e_type();

    assert!(matches!(
        result,
        Err(Elf64BitETypeValidationErrors::InvalidETypeValue(5))
    ));
}

#[test]
fn validate_e_type_returns_ok_for_valid_e_type() {
    let mut file = create_valid_file_for_e_type();
    file[5] = 1; // little endian
    file[16..18].copy_from_slice(&[0x01, 0x00]);
    let result = Elf64BitValidator::new(&file).validate_e_type();

    assert!(result.is_ok());
}

#[test]
fn validate_e_type_return_bytes_accordding_to_the_le_of_file() {
    let mut file = create_valid_file_for_e_type();
    file[5] = 1; // LE
    file[16..18].copy_from_slice(&[0x01, 0x00]); // one in LE

    let result = Elf64BitValidator::new(&file).validate_e_type().unwrap();

    assert!(result[0] == 0x01 && result[1] == 0x00);
}

#[test]
fn validate_e_type_returns_bytes_according_to_the_be_of_file() {
    let mut file = create_valid_file_for_e_type();
    file[5] = 2; // BE
    file[16..18].copy_from_slice(&[0x00, 0x01]); // one in BE

    let result = Elf64BitValidator::new(&file).validate_e_type().unwrap();

    assert!(result[0] == 0x00 && result[1] == 0x01);
}

fn create_valid_file_for_e_machine() -> Box<[u8]> {
    let mut file = [0u8; 52];
    file[0..4].copy_from_slice(&[0x7f, 0x45, 0x4c, 0x46]);
    file[4] = 2; // 64-bit
    file[5] = 2; // BE
    file[6] = 1; // version
    file[16..18].copy_from_slice(&[0x01, 0x00]);

    Box::new(file)
}

#[test]
fn validate_e_machine_returns_invalid_e_machine_size_when_file_size_is_less_than_20() {
    let file = [0u8; 19];

    let result = Elf64BitValidator::new(&file).validate_e_machine();

    assert!(matches!(
        result,
        Err(Elf64BitEMachineValidationErrors::InvalidEMachSize)
    ));
}

#[test]
fn validate_e_machine_returns_invalid_endianness_error_when_endianness_is_invalid() {
    let mut file = create_valid_file_for_e_machine();
    file[5] = 3; // invalid endianness

    let result = Elf64BitValidator::new(&file).validate_e_machine();

    assert!(matches!(
        result,
        Err(Elf64BitEMachineValidationErrors::InvalidEndianness(3))
    ));
}

#[test]
fn validate_e_machine_returns_ok_for_known_machine_types() {
    let mut file = create_valid_file_for_e_machine();

    // test some known machines
    let machine_types = [
        0x00, // no one specific; the binary may describe no specific arch
        0x02, // SPARC
        0x03, // x86
        0x08, // MIPS
        0x14, // PowerPC
        0x28, // ARM
        0x2A, // SuperH
        0x32, // IA-64
        0x3E, // x86-64
        0xB7, // AArch64
        0xF3, // RISC-V
    ];

    for machine_type in machine_types {
        file[18..20].copy_from_slice(&[0x00, machine_type]);
        let result = Elf64BitValidator::new(&file).validate_e_machine();
        assert!(result.is_ok());
    }
}

#[test]
fn validate_e_machine_returns_bytes_according_to_le_endianness() {
    let mut file = create_valid_file_for_e_machine();
    file[5] = 1; // LE
    file[18..20].copy_from_slice(&[0x3E, 0x00]); // x86-64 in LE

    let result = Elf64BitValidator::new(&file).validate_e_machine().unwrap();

    assert!(result[0] == 0x3E && result[1] == 0x00);
}

#[test]
fn validate_e_machine_returns_bytes_according_to_be_endianness() {
    let mut file = create_valid_file_for_e_machine();
    file[5] = 2; // BE
    file[18..20].copy_from_slice(&[0x00, 0x3E]); // x86-64 in BE

    let result = Elf64BitValidator::new(&file).validate_e_machine().unwrap();

    assert!(result[0] == 0x00 && result[1] == 0x3E);
}
