//! GPU requests and the devices that stand for them.

use openshell::gpu::{
    cdi_gpu_device_ids, validate_gpu_device_ids_count, DriverGpuResourceRequirement,
    CDI_GPU_DEVICE_ALL,
};

fn ids(names: &[&str]) -> Vec<String> {
    names.iter().map(|name| (*name).to_string()).collect()
}

#[test]
fn cdi_gpu_device_ids_returns_none_when_absent() {
    assert_eq!(cdi_gpu_device_ids(None, &vec![]), None);
}

#[test]
fn cdi_gpu_device_ids_defaults_empty_request_to_all_gpus() {
    let request = DriverGpuResourceRequirement { count: None };

    assert_eq!(
        cdi_gpu_device_ids(Some(&request), &vec![]),
        Some(vec![CDI_GPU_DEVICE_ALL.to_string()])
    );
}

#[test]
fn cdi_gpu_device_ids_passes_single_device_id_through() {
    let request = DriverGpuResourceRequirement { count: Some(1) };
    let device_ids = vec!["nvidia.com/gpu=0".to_string()];

    assert_eq!(
        cdi_gpu_device_ids(Some(&request), &device_ids),
        Some(vec!["nvidia.com/gpu=0".to_string()])
    );
}

#[test]
fn cdi_gpu_device_ids_passes_multiple_device_ids_through() {
    let request = DriverGpuResourceRequirement { count: Some(2) };
    let device_ids = vec![
        "nvidia.com/gpu=0".to_string(),
        "nvidia.com/gpu=1".to_string(),
    ];

    assert_eq!(
        cdi_gpu_device_ids(Some(&request), &device_ids),
        Some(vec![
            "nvidia.com/gpu=0".to_string(),
            "nvidia.com/gpu=1".to_string()
        ])
    );
}

#[test]
fn cdi_gpu_device_ids_ignores_device_ids_without_count() {
    let request = DriverGpuResourceRequirement { count: None };
    let device_ids = vec!["nvidia.com/gpu=0".to_string()];

    assert_eq!(
        cdi_gpu_device_ids(Some(&request), &device_ids),
        Some(vec![CDI_GPU_DEVICE_ALL.to_string()])
    );
}

#[test]
fn cdi_gpu_device_ids_ignores_device_ids_with_zero_count() {
    let request = DriverGpuResourceRequirement { count: Some(0) };
    let device_ids = vec!["nvidia.com/gpu=0".to_string()];

    assert_eq!(
        cdi_gpu_device_ids(Some(&request), &device_ids),
        Some(vec![CDI_GPU_DEVICE_ALL.to_string()])
    );
}

#[test]
fn validate_gpu_device_ids_count_requires_gpu_count() {
    let request = DriverGpuResourceRequirement { count: None };
    let device_ids = vec!["nvidia.com/gpu=0".to_string()];

    assert!(validate_gpu_device_ids_count(Some(&request), &device_ids).is_err());
}

#[test]
fn validate_gpu_device_ids_count_rejects_zero_count() {
    let request = DriverGpuResourceRequirement { count: Some(0) };
    let device_ids = vec!["nvidia.com/gpu=0".to_string()];

    assert!(validate_gpu_device_ids_count(Some(&request), &device_ids).is_err());
}

#[test]
fn validate_gpu_device_ids_count_accepts_matching_unique_ids() {
    let request = DriverGpuResourceRequirement { count: Some(2) };
    let device_ids = vec![
        "nvidia.com/gpu=0".to_string(),
        "nvidia.com/gpu=1".to_string(),
    ];

    validate_gpu_device_ids_count(Some(&request), &device_ids).unwrap();
}

#[test]
fn validate_gpu_device_ids_count_rejects_duplicate_ids() {
    let request = DriverGpuResourceRequirement { count: Some(1) };
    let device_ids = vec![
        "nvidia.com/gpu=0".to_string(),
        "nvidia.com/gpu=0".to_string(),
    ];

    assert!(validate_gpu_device_ids_count(Some(&request), &device_ids).is_err());
}

#[test]
fn validate_gpu_device_ids_count_rejects_count_mismatch() {
    let request = DriverGpuResourceRequirement { count: Some(2) };
    let device_ids = vec!["nvidia.com/gpu=0".to_string()];

    assert!(validate_gpu_device_ids_count(Some(&request), &device_ids).is_err());
}

#[test]
fn no_listed_devices_are_always_accepted() {
    for count in [None, Some(0), Some(7)] {
        let request = DriverGpuResourceRequirement { count };
        assert_eq!(validate_gpu_device_ids_count(Some(&request), &vec![]), Ok(()));
    }
    assert_eq!(validate_gpu_device_ids_count(None, &vec![]), Ok(()));
}

#[test]
fn accepted_devices_are_handed_on() {
    let request = DriverGpuResourceRequirement { count: Some(3) };
    let listed = ids(&["b", "a", "c"]);
    assert_eq!(validate_gpu_device_ids_count(Some(&request), &listed), Ok(()));
    assert_eq!(cdi_gpu_device_ids(Some(&request), &listed), Some(listed.clone()));
}
