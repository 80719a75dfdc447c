use mlx_rs::device::{new_device, Device, DeviceType};

#[test]
fn devices_carry_kind_and_index() {
    let d = new_device(DeviceType::Gpu, 1);
    assert_eq!(d.device_type, DeviceType::Gpu);
    assert_eq!(d.index, 1);

    let default: Device = Device::default();
    assert_eq!(default.device_type, DeviceType::Cpu);
    assert_eq!(default.index, 0);
}
