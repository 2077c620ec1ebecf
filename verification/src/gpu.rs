//! Requests for GPUs.

use crate::outcome::shown;
use crate::text;
use vstd::prelude::*;

verus! {

/// The CDI device that stands for all GPUs.
pub const CDI_GPU_DEVICE_ALL: &'static str = "nvidia.com/gpu=all";

/// A request for GPUs. Where no count is given, the driver chooses.
#[derive(Debug, Clone, Copy, PartialEq, Eq, Structural)]
pub struct DriverGpuResourceRequirement {
    pub count: Option<u32>,
}

/// The CDI devices of a request: none where no GPU was requested, the configured
/// devices where a positive count was requested and devices are configured, and
/// otherwise the device that stands for all GPUs.
pub open spec fn devices_of(
    gpu: Option<DriverGpuResourceRequirement>,
    device_ids: Seq<Seq<char>>,
) -> Option<Seq<Seq<char>>> {
    match gpu {
        None => None,
        Some(gpu) => if gpu.count is Some && gpu.count->0 > 0 && device_ids.len() > 0 {
            Some(device_ids)
        } else {
            Some(seq![CDI_GPU_DEVICE_ALL@])
        },
    }
}

/// What is said of configured devices, given a request: they come with a positive
/// count, are all different, and are as many as the count.
pub open spec fn devices_verdict(
    gpu: Option<DriverGpuResourceRequirement>,
    device_ids: Seq<Seq<char>>,
) -> Result<(), Seq<char>> {
    if device_ids.len() == 0 {
        Ok(())
    } else if gpu is None || gpu->0.count is None {
        Err("template.driver_config.gpu_device_ids requires resource_requirements.gpu.count"@)
    } else if gpu->0.count->0 == 0 {
        Err("resource_requirements.gpu.count must be greater than 0"@)
    } else if !device_ids.no_duplicates() {
        Err("template.driver_config.gpu_device_ids must not contain duplicates"@)
    } else if device_ids.len() != gpu->0.count->0 {
        Err(
            "template.driver_config.gpu_device_ids unique entry count must equal resource_requirements.gpu.count"@,
        )
    } else {
        Ok(())
    }
}

/// The value behind an optional reference.
pub open spec fn request_of(gpu: Option<&DriverGpuResourceRequirement>) -> Option<
    DriverGpuResourceRequirement,
> {
    match gpu {
        Some(gpu) => Some(*gpu),
        None => None,
    }
}

/// Resolves a driver's GPU request into CDI device identifiers.
pub fn cdi_gpu_device_ids(
    gpu: Option<&DriverGpuResourceRequirement>,
    driver_config_device_ids: &Vec<String>,
) -> (r: Option<Vec<String>>)
    ensures
        r.deep_view() == devices_of(request_of(gpu), driver_config_device_ids.deep_view()),
{
    match gpu {
        None => None,
        Some(gpu) => {
            let counted = match gpu.count {
                Some(count) => count > 0,
                None => false,
            };
            if counted && driver_config_device_ids.len() > 0 {
                return Some(driver_config_device_ids.clone());
            }
            let mut all: Vec<String> = Vec::new();
            all.push(CDI_GPU_DEVICE_ALL.to_owned());
            assert(all.deep_view() =~= seq![CDI_GPU_DEVICE_ALL@]);
            Some(all)
        },
    }
}

fn are_distinct(ids: &Vec<String>) -> (r: bool)
    ensures
        r == ids.deep_view().no_duplicates(),
{
    let ghost list = ids.deep_view();
    let mut i: usize = 0;
    while i < ids.len()
        invariant
            i <= ids.len(),
            list == ids.deep_view(),
            forall|a: int, b: int|
                0 <= a < b < list.len() && a < i ==> #[trigger] list[a] != #[trigger] list[b],
        decreases ids.len() - i,
    {
        let mut j: usize = i + 1;
        while j < ids.len()
            invariant
                i < j <= ids.len(),
                list == ids.deep_view(),
                forall|b: int| i < b < j ==> list[i as int] != #[trigger] list[b],
            decreases ids.len() - j,
        {
            assert(list[i as int] == ids@[i as int]@ && list[j as int] == ids@[j as int]@);
            if text::same(ids[i].as_str(), ids[j].as_str()) {
                return false;
            }
            j += 1;
        }
        i += 1;
    }
    assert forall|a: int, b: int| 0 <= a < list.len() && 0 <= b < list.len() && a != b implies list[a]
        != list[b] by {
        if a < b {
            assert(list[a] != list[b]);
        } else {
            assert(list[b] != list[a]);
        }
    }
    true
}

/// Checks that configured GPU devices line up with the requested count.
pub fn validate_gpu_device_ids_count(
    gpu: Option<&DriverGpuResourceRequirement>,
    gpu_device_ids: &Vec<String>,
) -> (r: Result<(), String>)
    ensures
        shown(r) == devices_verdict(request_of(gpu), gpu_device_ids.deep_view()),
{
    if gpu_device_ids.len() == 0 {
        return Ok(());
    }
    let requested: Option<u32> = match gpu {
        Some(gpu) => gpu.count,
        None => None,
    };
    let count: u32 = match requested {
        Some(count) => count,
        None => {
            return Err(
                "template.driver_config.gpu_device_ids requires resource_requirements.gpu.count".to_owned(),
            );
        },
    };
    if count == 0 {
        return Err("resource_requirements.gpu.count must be greater than 0".to_owned());
    }
    if !are_distinct(gpu_device_ids) {
        return Err(
            "template.driver_config.gpu_device_ids must not contain duplicates".to_owned(),
        );
    }
    if gpu_device_ids.len() != count as usize {
        return Err(
            "template.driver_config.gpu_device_ids unique entry count must equal resource_requirements.gpu.count".to_owned(),
        );
    }
    Ok(())
}

/// Devices that were accepted for a request are what the request resolves to.
pub proof fn law_accepted_devices_are_used(
    gpu: Option<DriverGpuResourceRequirement>,
    device_ids: Seq<Seq<char>>,
)
    requires
        device_ids.len() > 0,
        devices_verdict(gpu, device_ids) is Ok,
    ensures
        devices_of(gpu, device_ids) == Some(device_ids),
        device_ids.len() == gpu->0.count->0,
{
}

/// Devices are accepted exactly where none are configured, or where a count above zero was
/// requested and the configured ones are that many, each of them once.
pub proof fn law_accepted_devices(
    gpu: Option<DriverGpuResourceRequirement>,
    device_ids: Seq<Seq<char>>,
)
    ensures
        devices_verdict(gpu, device_ids) is Ok <==> device_ids.len() == 0 || (gpu matches Some(
            request,
        ) && (request.count matches Some(count) && count > 0 && count == device_ids.len() && (
        forall|i: int, j: int|
            0 <= i < j < device_ids.len() ==> #[trigger] device_ids[i] != #[trigger] device_ids[j]))),
{
    if forall|i: int, j: int|
        0 <= i < j < device_ids.len() ==> #[trigger] device_ids[i] != #[trigger] device_ids[j] {
        assert forall|a: int, b: int|
            0 <= a < device_ids.len() && 0 <= b < device_ids.len() && a != b implies device_ids[a]
            != device_ids[b] by {
            if a < b {
                assert(device_ids[a] != device_ids[b]);
            } else {
                assert(device_ids[b] != device_ids[a]);
            }
        }
    }
}

/// No device is given where no GPU was requested. Where one was, the configured devices are
/// given if a count was requested with them, and the device that stands for all GPUs if not.
pub proof fn law_given_devices(
    gpu: Option<DriverGpuResourceRequirement>,
    device_ids: Seq<Seq<char>>,
)
    ensures
        devices_of(gpu, device_ids) is None <==> gpu is None,
        gpu matches Some(request) ==> (request.count is None || request.count == Some(0u32)
            || device_ids.len() == 0) ==> devices_of(gpu, device_ids) == Some(
            seq!["nvidia.com/gpu=all"@],
        ),
        gpu matches Some(request) ==> (request.count matches Some(count) ==> (count > 0
            && device_ids.len() > 0 ==> devices_of(gpu, device_ids) == Some(device_ids))),
{
}

} // verus!
