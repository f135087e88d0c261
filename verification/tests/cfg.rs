use fpga_programmer::cfg::Cfg;

#[test]
fn fifo_size_and_programmed_flag() {
    let mut words = vec![0u16; 64];
    words[33] = 256;
    words[48] = 1;
    let cfg = Cfg { cfg: words };
    assert_eq!(cfg.fifo_size(), 256);
    assert!(cfg.is_programmed());
}

#[test]
fn programmed_flag_clear() {
    let mut words = vec![0u16; 64];
    words[33] = 256;
    words[48] = 0;
    let cfg = Cfg { cfg: words };
    assert_eq!(cfg.fifo_size(), 256);
    assert!(!cfg.is_programmed());
}

#[test]
fn programmed_flag_reads_only_bit_zero() {
    let mut words = vec![0u16; 64];
    words[48] = 0xfffe;
    let cfg = Cfg { cfg: words };
    assert!(!cfg.is_programmed());
    let mut words = vec![0u16; 64];
    words[48] = 0x0003;
    let cfg = Cfg { cfg: words };
    assert!(cfg.is_programmed());
}

#[test]
fn fresh_snapshot_is_all_zero() {
    let cfg = Cfg::new();
    assert_eq!(cfg.cfg, vec![0u16; 64]);
    assert_eq!(cfg.fifo_size(), 0);
    assert!(!cfg.is_programmed());
}
