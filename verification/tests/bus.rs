use vcs_core::bus::{Bus, Traced};
use vcs_core::cpu6507::CPU6507;

struct Ram {
    bytes: Vec<u8>,
    asked: Vec<u16>,
}

impl Bus for Ram {
    fn read(&mut self, address: u16) -> u8 {
        self.asked.push(address);
        self.bytes[address as usize]
    }
}

#[test]
fn reads_go_to_the_wrapped_bus_in_order() {
    let mut bytes = vec![0u8; 0x10000];
    bytes[0x1234] = 0xab;
    bytes[0x0002] = 0xcd;
    let mut cpu = CPU6507::new(Ram { bytes, asked: Vec::new() });
    assert_eq!(cpu.read(0x1234), 0xab);
    assert_eq!(cpu.read(0x0002), 0xcd);
    assert_eq!(cpu.bus.inner().asked, vec![0x1234, 0x0002]);
    let mut traced = Traced::new(cpu.bus.into_inner());
    assert_eq!(traced.read(0x1234), 0xab);
    assert_eq!(traced.into_inner().asked, vec![0x1234, 0x0002, 0x1234]);
}
