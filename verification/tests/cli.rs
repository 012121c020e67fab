use shyper::cli::config::{
    has_device_tree, parse_binary_string, parse_cfg_list, parse_hex_string, parse_memory_colors, upload_file_requests, CfgListError,
    CfgListItem, PrefixedNumberError, CACHE_MAX,
};
use shyper::cli::daemon::{generate_hvc_mode, sig_handle_event, BlkArg, DaemonAction, HVC_CONFIG, HVC_CONFIG_UPLOAD_KERNEL_IMAGE};
use shyper::cli::util::{bool_to_cint, cstr_arr_to_string, string_to_cstr_arr, string_to_u64, trim_str, NumParseError};
use shyper::cli::vmm::{vm_control_arg, vm_state_description, vm_type_description};

#[test]
fn hex_string_reads_after_prefix() {
    assert_eq!(parse_hex_string("0x10"), Ok(16));
    assert_eq!(parse_hex_string("  0xdeadbeef  "), Ok(0xdead_beef));
    assert_eq!(parse_hex_string("0"), Ok(0));
}

#[test]
fn hex_string_too_short() {
    assert_eq!(parse_hex_string("0x"), Err(PrefixedNumberError::TooShort));
    assert_eq!(parse_hex_string("1"), Err(PrefixedNumberError::TooShort));
}

#[test]
fn hex_string_bad_digits() {
    assert_eq!(parse_hex_string("0xzz"), Err(PrefixedNumberError::Number(NumParseError::InvalidDigit)));
    assert_eq!(
        parse_hex_string("0x1ffffffffffffffff"),
        Err(PrefixedNumberError::Number(NumParseError::PosOverflow))
    );
}

#[test]
fn binary_string_reads_after_prefix() {
    assert_eq!(parse_binary_string("0b101"), Ok(5));
    assert_eq!(parse_binary_string("0b0100"), Ok(4));
    assert_eq!(parse_binary_string("0b0111"), Ok(7));
    assert_eq!(parse_binary_string("0b"), Err(PrefixedNumberError::Number(NumParseError::Empty)));
    assert_eq!(parse_binary_string("0b12"), Err(PrefixedNumberError::Number(NumParseError::InvalidDigit)));
}

#[test]
fn binary_string_needs_prefix() {
    assert_eq!(parse_binary_string("1"), Err(PrefixedNumberError::NoPrefix));
    assert_eq!(parse_binary_string(""), Err(PrefixedNumberError::NoPrefix));
    assert_eq!(parse_binary_string("1101"), Err(PrefixedNumberError::NoPrefix));
}

#[test]
fn hex_string_needs_prefix() {
    assert_eq!(parse_hex_string("1234"), Err(PrefixedNumberError::NoPrefix));
    assert_eq!(parse_hex_string("0b11"), Err(PrefixedNumberError::NoPrefix));
    assert_eq!(parse_hex_string("0x8000"), Ok(32768));
    assert_eq!(parse_hex_string("0x80080000"), Ok(0x8008_0000));
}

#[test]
fn memory_colors_ranges_and_singles() {
    assert_eq!(parse_memory_colors("0-3,5,8-9"), Ok(vec![0, 1, 2, 3, 5, 8, 9]));
    assert_eq!(parse_memory_colors("7"), Ok(vec![7]));
    assert_eq!(parse_memory_colors("x"), Err(NumParseError::InvalidDigit));
}

#[test]
fn memory_colors_empty_range() {
    assert_eq!(parse_memory_colors("4-2"), Ok(vec![]));
}

#[test]
fn string_to_u64_radixes() {
    assert_eq!(string_to_u64(String::from("0x1f")), Ok(31));
    assert_eq!(string_to_u64(String::from("0b110")), Ok(6));
    assert_eq!(string_to_u64(String::from(" 42 ")), Ok(42));
}

#[test]
fn string_to_u64_messages() {
    assert_eq!(string_to_u64(String::from("0xg")), Err(String::from("Not hex string: 0xg")));
    assert_eq!(string_to_u64(String::from("0b2")), Err(String::from("Not binary string: 0b2")));
    assert_eq!(
        string_to_u64(String::from("abc")),
        Err(String::from("String abc is not in hex/bin/decimal format!"))
    );
}

#[test]
fn cfg_list_numbers_and_strings() {
    let items = vec![CfgListItem::Unsigned(3), CfgListItem::Text(String::from("0x10"))];
    assert_eq!(parse_cfg_list(Some(items)), Ok(vec![3, 16]));
}

#[test]
fn cfg_list_errors() {
    assert_eq!(parse_cfg_list(None), Err(CfgListError::NotArray));
    assert_eq!(parse_cfg_list(Some(vec![CfgListItem::Unsigned(1), CfgListItem::OtherNumber])), Err(CfgListError::NotU64(1)));
    assert_eq!(parse_cfg_list(Some(vec![CfgListItem::Other])), Err(CfgListError::NotNumOrString(0)));
    assert_eq!(
        parse_cfg_list(Some(vec![CfgListItem::Text(String::from("zz"))])),
        Err(CfgListError::BadString(String::from("String zz is not in hex/bin/decimal format!")))
    );
}

#[test]
fn upload_requests_split_by_buffer() {
    let size = (CACHE_MAX as u64) * 2 + 5;
    let r = upload_file_requests(3, size, 0x1000);
    assert_eq!(r.len(), 3);
    assert_eq!(r[0].load_offset, 0);
    assert_eq!(r[0].load_size, CACHE_MAX as u64);
    assert_eq!(r[1].load_offset, CACHE_MAX as u64);
    assert_eq!(r[2].load_offset, 2 * CACHE_MAX as u64);
    assert_eq!(r[2].load_size, 5);
    assert!(r.iter().all(|a| a.vmid == 3 && a.img_size == size && a.cache_ipa == 0x1000));
}

#[test]
fn upload_requests_tile_the_file() {
    let r = upload_file_requests(1, 0x300000, 0);
    assert_eq!(r.len(), 2);
    assert_eq!((r[0].load_offset, r[0].load_size), (0, 0x200000));
    assert_eq!((r[1].load_offset, r[1].load_size), (0x200000, 0x100000));
    let r = upload_file_requests(1, 0x200000, 0);
    assert_eq!(r.len(), 1);
    assert_eq!(r[0].load_size, 0x200000);
    let r = upload_file_requests(1, 10, 0);
    assert_eq!(r.len(), 1);
    assert_eq!(r[0].load_size, 10);
}

#[test]
fn upload_requests_empty_file() {
    assert_eq!(upload_file_requests(1, 0, 0).len(), 0);
}

#[test]
fn hvc_mode_word() {
    assert_eq!(generate_hvc_mode(0x11, 9), 0x1109);
    assert_eq!(generate_hvc_mode(0x1ff, 0), 0xff00);
}

#[test]
fn daemon_events() {
    let mut blk = BlkArg { hvc_fid: 3, hvc_event: 0x20, blk_id: 2, req_type: 0, sector: 8, count: 4 };
    assert_eq!(sig_handle_event(&blk, 0), DaemonAction::MediatedRead { blk_id: 2, sector: 8, count: 4 });
    blk.req_type = 1;
    assert_eq!(sig_handle_event(&blk, 0), DaemonAction::MediatedWrite { blk_id: 2, sector: 8, count: 4 });
    blk.req_type = 7;
    assert_eq!(sig_handle_event(&blk, 0), DaemonAction::UnknownBlkRequest(7));
    let up = BlkArg {
        hvc_fid: HVC_CONFIG as u64,
        hvc_event: HVC_CONFIG_UPLOAD_KERNEL_IMAGE as u64,
        blk_id: 0,
        req_type: 0,
        sector: 0,
        count: 0,
    };
    assert_eq!(sig_handle_event(&up, 5), DaemonAction::UploadKernelImage { vm_id: 5 });
    let other = BlkArg { hvc_fid: 9, hvc_event: 0, blk_id: 0, req_type: 0, sector: 0, count: 0 };
    assert_eq!(sig_handle_event(&other, 5), DaemonAction::Ignore);
}

#[test]
fn c_strings() {
    let mut buf = [0u8; 8];
    buf[..3].copy_from_slice(b"abc");
    assert_eq!(cstr_arr_to_string(&buf), "abc");
    let arr = string_to_cstr_arr(String::from("vm1"));
    assert_eq!(&arr[..4], b"vm1\0");
    assert!(arr[4..].iter().all(|b| *b == 0));
    assert_eq!(cstr_arr_to_string(&arr), "vm1");
}

#[test]
fn c_string_lossy() {
    let buf = [0x66u8, 0xff, 0x67, 0];
    assert_eq!(cstr_arr_to_string(&buf), "f\u{fffd}g");
}

#[test]
fn small_helpers() {
    assert_eq!(bool_to_cint(true), 1);
    assert_eq!(bool_to_cint(false), 0);
    assert_eq!(trim_str("  x y \n"), "x y");
    assert_eq!(vm_control_arg(true, 3), 0x10003);
    assert_eq!(vm_control_arg(false, 3), 3);
    assert_eq!(vm_type_description(0), "vm type: Linux");
    assert_eq!(vm_type_description(9), "vm type: illegal type");
    assert_eq!(vm_state_description(2), "vm state: Active");
}

#[test]
fn dash_names_no_device_tree() {
    assert!(!has_device_tree("-"));
    assert!(!has_device_tree(""));
    assert!(has_device_tree("linux.dtb"));
    assert!(has_device_tree("--"));
}

#[test]
fn color_list_overflow_decider() {
    use_overflow_cases();
}

fn use_overflow_cases() {
    assert!(shyper::cli::config::memory_colors_overflow("0-18446744073709551615"));
    assert!(shyper::cli::config::memory_colors_overflow("1,2-18446744073709551615,x"));
    assert!(!shyper::cli::config::memory_colors_overflow("x,2-18446744073709551615"));
    assert!(!shyper::cli::config::memory_colors_overflow("0-13,14,15,32-63"));
    assert!(!shyper::cli::config::memory_colors_overflow(""));
}
